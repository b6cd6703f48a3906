//! Text primitives over `Seq<char>` models, with executable counterparts.

use vstd::prelude::*;

verus! {

// ---------------------------------------------------------------------------
// Specifications
// ---------------------------------------------------------------------------

/// Unicode `White_Space`, as tested by `char::is_whitespace`.
pub open spec fn is_ws(c: char) -> bool {
    ||| c == '\t'
    ||| c == '\n'
    ||| c == '\u{0B}'
    ||| c == '\u{0C}'
    ||| c == '\r'
    ||| c == ' '
    ||| c == '\u{85}'
    ||| c == '\u{A0}'
    ||| c == '\u{1680}'
    ||| ('\u{2000}' <= c && c <= '\u{200A}')
    ||| c == '\u{2028}'
    ||| c == '\u{2029}'
    ||| c == '\u{202F}'
    ||| c == '\u{205F}'
    ||| c == '\u{3000}'
}

pub open spec fn is_ascii_alnum(c: char) -> bool {
    ('a' <= c && c <= 'z') || ('A' <= c && c <= 'Z') || ('0' <= c && c <= '9')
}

pub open spec fn ascii_lower(c: char) -> char {
    if 'A' <= c && c <= 'Z' {
        ((c as u32) + 32) as char
    } else {
        c
    }
}

pub open spec fn all_ascii(s: Seq<char>) -> bool {
    forall|i: int| 0 <= i < s.len() ==> (s[i] as u32) < 128
}

pub open spec fn has_prefix(s: Seq<char>, p: Seq<char>) -> bool {
    p.len() <= s.len() && s.subrange(0, p.len() as int) == p
}

pub open spec fn has_suffix(s: Seq<char>, p: Seq<char>) -> bool {
    p.len() <= s.len() && s.subrange(s.len() - p.len(), s.len() as int) == p
}

/// `p` occurs in `s` starting at position `i`.
pub open spec fn occurs_at(s: Seq<char>, p: Seq<char>, i: int) -> bool {
    0 <= i && i + p.len() <= s.len() && s.subrange(i, i + p.len()) == p
}

pub open spec fn contains_seq(s: Seq<char>, p: Seq<char>) -> bool {
    exists|i: int| occurs_at(s, p, i)
}

/// First index at or after `i` whose char is not whitespace (or `s.len()`).
pub open spec fn skip_ws(s: Seq<char>, i: int) -> int
    decreases s.len() - i,
{
    if i >= s.len() || i < 0 {
        i
    } else if !is_ws(s[i]) {
        i
    } else {
        skip_ws(s, i + 1)
    }
}

/// Largest `k <= j` such that `s[k-1]` is not whitespace, or 0.
pub open spec fn back_ws(s: Seq<char>, j: int) -> int
    decreases j,
{
    if j <= 0 {
        0
    } else if !is_ws(s[j - 1]) {
        j
    } else {
        back_ws(s, j - 1)
    }
}

/// `str::trim`: drop leading and trailing whitespace.
pub open spec fn trim(s: Seq<char>) -> Seq<char> {
    let a = skip_ws(s, 0);
    let b = back_ws(s, s.len() as int);
    if a < b {
        s.subrange(a, b)
    } else {
        Seq::empty()
    }
}

/// Concatenation of `list` with `sep` between consecutive items.
pub open spec fn join(list: Seq<Seq<char>>, sep: Seq<char>) -> Seq<char>
    decreases list.len(),
{
    if list.len() == 0 {
        Seq::empty()
    } else if list.len() == 1 {
        list[0]
    } else {
        join(list.drop_last(), sep) + sep + list.last()
    }
}

pub open spec fn digit_char(d: nat) -> char {
    if d == 0 { '0' }
    else if d == 1 { '1' }
    else if d == 2 { '2' }
    else if d == 3 { '3' }
    else if d == 4 { '4' }
    else if d == 5 { '5' }
    else if d == 6 { '6' }
    else if d == 7 { '7' }
    else if d == 8 { '8' }
    else { '9' }
}

/// Decimal notation of a natural number, as `Display` prints it.
pub open spec fn decimal(n: nat) -> Seq<char>
    decreases n,
{
    if n < 10 {
        seq![digit_char(n)]
    } else {
        decimal(n / 10).push(digit_char(n % 10))
    }
}

/// Number of bytes of the UTF-8 encoding of one char.
pub open spec fn utf8_width(c: char) -> nat {
    if (c as u32) < 0x80 {
        1
    } else if (c as u32) < 0x800 {
        2
    } else if (c as u32) < 0x10000 {
        3
    } else {
        4
    }
}

/// Number of bytes of the UTF-8 encoding of a string (what `str::len` counts).
pub open spec fn utf8_len(s: Seq<char>) -> nat
    decreases s.len(),
{
    if s.len() == 0 {
        0
    } else {
        utf8_len(s.drop_last()) + utf8_width(s.last())
    }
}


/// `s` split at every occurrence of `c` (`str::split(c)`); never empty.
pub open spec fn split_on(s: Seq<char>, c: char) -> Seq<Seq<char>>
    decreases s.len(),
{
    if s.len() == 0 {
        seq![Seq::<char>::empty()]
    } else {
        let r = split_on(s.drop_last(), c);
        if s.last() == c {
            r.push(Seq::<char>::empty())
        } else {
            r.update(r.len() - 1, r.last().push(s.last()))
        }
    }
}

pub proof fn lemma_split_on_nonempty(s: Seq<char>, c: char)
    ensures
        split_on(s, c).len() >= 1,
    decreases s.len(),
{
    if s.len() > 0 {
        lemma_split_on_nonempty(s.drop_last(), c);
    }
}

/// Drop one trailing carriage return.
pub open spec fn strip_cr(x: Seq<char>) -> Seq<char> {
    if x.len() > 0 && x.last() == '\r' {
        x.drop_last()
    } else {
        x
    }
}

/// `str::lines`: split at `\n`, drop a `\r` before each `\n`, and no empty
/// last line after a final `\n`.
pub open spec fn lines_of(s: Seq<char>) -> Seq<Seq<char>> {
    let segs = split_on(s, '\n');
    let full = segs.drop_last();
    let stripped = Seq::new(full.len(), |i: int| strip_cr(full[i]));
    if segs.last().len() == 0 {
        stripped
    } else {
        stripped.push(segs.last())
    }
}

/// `str::split_whitespace`: the maximal runs of non-whitespace chars.
pub open spec fn ws_tokens(s: Seq<char>) -> Seq<Seq<char>>
    decreases s.len(),
{
    if s.len() == 0 {
        Seq::empty()
    } else {
        let r = ws_tokens(s.drop_last());
        let c = s.last();
        if is_ws(c) {
            r
        } else if s.len() >= 2 && !is_ws(s[s.len() - 2]) && r.len() > 0 {
            r.update(r.len() - 1, r.last().push(c))
        } else {
            r.push(seq![c])
        }
    }
}

/// `str::replace` for a non-empty pattern, from position `i` on.
pub open spec fn replace_from(s: Seq<char>, from: Seq<char>, to: Seq<char>, i: int) -> Seq<char>
    decreases s.len() - i,
{
    if i < 0 || i >= s.len() {
        Seq::empty()
    } else if from.len() > 0 && occurs_at(s, from, i) {
        to + replace_from(s, from, to, i + from.len())
    } else {
        seq![s[i]] + replace_from(s, from, to, i + 1)
    }
}

pub open spec fn replace_all(s: Seq<char>, from: Seq<char>, to: Seq<char>) -> Seq<char> {
    replace_from(s, from, to, 0)
}

/// Number of non-overlapping occurrences of a non-empty `p` in `s`, scanning
/// left to right from `i` (`str::matches(p).count()`).
pub open spec fn count_from(s: Seq<char>, p: Seq<char>, i: int) -> nat
    decreases s.len() - i,
{
    if i < 0 || i >= s.len() || p.len() == 0 {
        0
    } else if occurs_at(s, p, i) {
        1 + count_from(s, p, i + p.len())
    } else {
        count_from(s, p, i + 1)
    }
}

/// Every item of `l` wrapped between `pre` and `post`.
pub open spec fn wrap_each(l: Seq<Seq<char>>, pre: Seq<char>, post: Seq<char>) -> Seq<Seq<char>> {
    Seq::new(l.len(), |i: int| pre + l[i] + post)
}

/// `str::to_lowercase` (Unicode lower case). The library only relies on the
/// ASCII part of it, stated by `to_lowercase`.
pub uninterp spec fn lowercase(s: Seq<char>) -> Seq<char>;

pub open spec fn ascii_lowercase(s: Seq<char>) -> Seq<char> {
    Seq::new(s.len(), |i: int| ascii_lower(s[i]))
}


/// The text of an optional string.
pub open spec fn opt_view(o: Option<String>) -> Option<Seq<char>> {
    match o {
        Some(x) => Some(x@),
        None => None,
    }
}

/// `s` without the leading run of `c`.
pub open spec fn strip_lead(s: Seq<char>, c: char) -> Seq<char>
    decreases s.len(),
{
    if s.len() > 0 && s[0] == c {
        strip_lead(s.drop_first(), c)
    } else {
        s
    }
}

/// `s` without the trailing run of `c`.
pub open spec fn strip_trail(s: Seq<char>, c: char) -> Seq<char>
    decreases s.len(),
{
    if s.len() > 0 && s.last() == c {
        strip_trail(s.drop_last(), c)
    } else {
        s
    }
}

/// `str::trim_matches(c)`.
pub open spec fn trim_char(s: Seq<char>, c: char) -> Seq<char> {
    strip_trail(strip_lead(s, c), c)
}

/// The rest of `s` after the prefix `p`, when `s` starts with it.
pub open spec fn after_prefix(s: Seq<char>, p: Seq<char>) -> Option<Seq<char>> {
    if has_prefix(s, p) {
        Some(s.subrange(p.len() as int, s.len() as int))
    } else {
        None
    }
}

/// `String::from_utf8_lossy`: the text of a byte string, invalid sequences
/// replaced.
pub uninterp spec fn utf8_lossy(bytes: Seq<u8>) -> Seq<char>;

/// Bytes read as ASCII chars.
pub open spec fn ascii_chars(bytes: Seq<u8>) -> Seq<char> {
    Seq::new(bytes.len(), |i: int| bytes[i] as char)
}

pub open spec fn all_ascii_bytes(bytes: Seq<u8>) -> bool {
    forall|i: int| 0 <= i < bytes.len() ==> bytes[i] < 128
}

pub open spec fn is_digit(c: char) -> bool {
    '0' <= c && c <= '9'
}

pub open spec fn digit_value(c: char) -> nat {
    ((c as u32) - 48) as nat
}

/// The value of a string of decimal digits.
pub open spec fn digits_value(s: Seq<char>) -> nat
    decreases s.len(),
{
    if s.len() == 0 {
        0
    } else {
        digits_value(s.drop_last()) * 10 + digit_value(s.last())
    }
}

pub open spec fn all_digits(s: Seq<char>) -> bool {
    forall|i: int| 0 <= i < s.len() ==> is_digit(#[trigger] s[i])
}

/// `str::parse` of an unsigned integer type whose largest value is `max`:
/// an optional `+`, then at least one decimal digit, and no more than `max`.
pub open spec fn parse_unsigned(s: Seq<char>, max: nat) -> Option<nat> {
    let d = if s.len() > 0 && s[0] == '+' {
        s.drop_first()
    } else {
        s
    };
    if d.len() > 0 && all_digits(d) && digits_value(d) <= max {
        Some(digits_value(d))
    } else {
        None
    }
}

/// First position at or after `i` where `p` occurs in `s`.
pub open spec fn index_of_from(s: Seq<char>, p: Seq<char>, i: int) -> Option<int>
    decreases s.len() + 1 - i,
{
    if i < 0 || i > s.len() {
        None
    } else if occurs_at(s, p, i) {
        Some(i)
    } else {
        index_of_from(s, p, i + 1)
    }
}

/// The last path component that is neither empty nor `.`.
pub open spec fn last_component(segs: Seq<Seq<char>>) -> Option<Seq<char>>
    decreases segs.len(),
{
    if segs.len() == 0 {
        None
    } else if segs.last().len() == 0 || segs.last() == "."@ {
        last_component(segs.drop_last())
    } else {
        Some(segs.last())
    }
}

/// `Path::file_name` of a `/`-separated path.
pub open spec fn file_name(p: Seq<char>) -> Option<Seq<char>> {
    match last_component(split_on(p, '/')) {
        Some(c) => if c == ".."@ {
            None
        } else {
            Some(c)
        },
        None => None,
    }
}

/// Index of the last `c` in `s`, looking below position `j`.
pub open spec fn last_index_below(s: Seq<char>, c: char, j: int) -> Option<int>
    decreases j,
{
    if j <= 0 || j > s.len() {
        None
    } else if s[j - 1] == c {
        Some(j - 1)
    } else {
        last_index_below(s, c, j - 1)
    }
}

/// `Path::extension`: the text after the last `.` of the file name, unless
/// that `.` starts the name.
pub open spec fn extension(p: Seq<char>) -> Option<Seq<char>> {
    match file_name(p) {
        None => None,
        Some(f) => match last_index_below(f, '.', f.len() as int) {
            None => None,
            Some(k) => if k == 0 {
                None
            } else {
                Some(f.subrange(k + 1, f.len() as int))
            },
        },
    }
}


/// Lexicographic order on strings (the order of `String`'s `Ord`).
pub open spec fn str_lt(a: Seq<char>, b: Seq<char>) -> bool
    decreases a.len(),
{
    if a.len() == 0 {
        b.len() > 0
    } else if b.len() == 0 {
        false
    } else if a[0] != b[0] {
        (a[0] as u32) < (b[0] as u32)
    } else {
        str_lt(a.drop_first(), b.drop_first())
    }
}

/// Insert `x` into `s` before the first item not below it, unless it is
/// already there.
pub open spec fn insert_sorted(s: Seq<Seq<char>>, x: Seq<char>) -> Seq<Seq<char>>
    decreases s.len(),
{
    if s.len() == 0 {
        seq![x]
    } else if s[0] == x {
        s
    } else if str_lt(x, s[0]) {
        seq![x] + s
    } else {
        seq![s[0]] + insert_sorted(s.drop_first(), x)
    }
}

/// A list sorted and with duplicates removed (`sort` then `dedup`).
pub open spec fn sort_dedup(l: Seq<Seq<char>>) -> Seq<Seq<char>>
    decreases l.len(),
{
    if l.len() == 0 {
        Seq::empty()
    } else {
        insert_sorted(sort_dedup(l.drop_last()), l.last())
    }
}

/// Strictly increasing under `str_lt`.
pub open spec fn strictly_sorted(s: Seq<Seq<char>>) -> bool {
    forall|i: int, j: int| 0 <= i < j < s.len() ==> str_lt(s[i], s[j])
}

proof fn i_assoc(a: Seq<Seq<char>>, b: Seq<Seq<char>>, c: Seq<Seq<char>>)
    ensures
        (a + b) + c == a + (b + c),
{
    assert((a + b) + c =~= a + (b + c));
}

proof fn lemma_str_lt_irreflexive(a: Seq<char>)
    ensures
        !str_lt(a, a),
    decreases a.len(),
{
    if a.len() > 0 {
        lemma_str_lt_irreflexive(a.drop_first());
    }
}

proof fn lemma_str_lt_transitive(a: Seq<char>, b: Seq<char>, c: Seq<char>)
    requires
        str_lt(a, b),
        str_lt(b, c),
    ensures
        str_lt(a, c),
    decreases a.len(),
{
    if a.len() > 0 && b.len() > 0 && c.len() > 0 && a[0] == b[0] && b[0] == c[0] {
        lemma_str_lt_transitive(a.drop_first(), b.drop_first(), c.drop_first());
    }
}

proof fn lemma_char_code_injective(c: char, d: char)
    requires
        c != d,
    ensures
        c as u32 != d as u32,
{
}

proof fn lemma_str_lt_total(a: Seq<char>, b: Seq<char>)
    requires
        a != b,
    ensures
        str_lt(a, b) || str_lt(b, a),
    decreases a.len(),
{
    if a.len() > 0 && b.len() > 0 && a[0] == b[0] {
        if a.drop_first() == b.drop_first() {
            assert(a =~= seq![a[0]] + a.drop_first());
            assert(b =~= seq![b[0]] + b.drop_first());
        }
        lemma_str_lt_total(a.drop_first(), b.drop_first());
    } else if a.len() == 0 && b.len() == 0 {
        assert(a =~= b);
    } else if a.len() > 0 && b.len() > 0 {
        lemma_char_code_injective(a[0], b[0]);
    }
}

proof fn lemma_insert_sorted(s: Seq<Seq<char>>, x: Seq<char>)
    requires
        strictly_sorted(s),
    ensures
        strictly_sorted(insert_sorted(s, x)),
        forall|y: Seq<char>| #[trigger] insert_sorted(s, x).contains(y) <==> (s.contains(y) || y == x),
    decreases s.len(),
{
    let r = insert_sorted(s, x);
    if s.len() == 0 {
        assert(r == seq![x]);
        assert forall|y: Seq<char>| r.contains(y) <==> (s.contains(y) || y == x) by {
            if y == x {
                assert(r[0] == x);
            }
        }
    } else if s[0] == x {
        assert forall|y: Seq<char>| r.contains(y) <==> (s.contains(y) || y == x) by {
            if y == x {
                assert(s[0] == x);
            }
        }
    } else if str_lt(x, s[0]) {
        assert(r == seq![x] + s);
        assert forall|i: int, j: int| 0 <= i < j < r.len() implies str_lt(r[i], r[j]) by {
            if i == 0 {
                if j > 1 {
                    lemma_str_lt_transitive(x, s[0], s[j - 1]);
                }
            } else {
                assert(r[i] == s[i - 1] && r[j] == s[j - 1]);
            }
        }
        assert forall|y: Seq<char>| r.contains(y) <==> (s.contains(y) || y == x) by {
            if y == x {
                assert(r[0] == x);
            }
            if s.contains(y) {
                let k = choose|k: int| 0 <= k < s.len() && s[k] == y;
                assert(r[k + 1] == y);
            }
            if r.contains(y) {
                let k = choose|k: int| 0 <= k < r.len() && r[k] == y;
                if k > 0 {
                    assert(s[k - 1] == y);
                }
            }
        }
    } else {
        lemma_str_lt_total(x, s[0]);
        let rest = s.drop_first();
        assert(strictly_sorted(rest)) by {
            assert forall|i: int, j: int| 0 <= i < j < rest.len() implies str_lt(rest[i], rest[j]) by {
                assert(rest[i] == s[i + 1] && rest[j] == s[j + 1]);
            }
        }
        lemma_insert_sorted(rest, x);
        let t = insert_sorted(rest, x);
        assert(r == seq![s[0]] + t);
        assert forall|i: int, j: int| 0 <= i < j < r.len() implies str_lt(r[i], r[j]) by {
            if i == 0 {
                assert(t.contains(r[j])) by {
                    assert(t[j - 1] == r[j]);
                }
                if r[j] == x {
                } else {
                    assert(rest.contains(r[j]));
                    let k = choose|k: int| 0 <= k < rest.len() && rest[k] == r[j];
                    assert(s[k + 1] == r[j]);
                }
            } else {
                assert(r[i] == t[i - 1] && r[j] == t[j - 1]);
            }
        }
        assert forall|y: Seq<char>| r.contains(y) <==> (s.contains(y) || y == x) by {
            if r.contains(y) {
                let k = choose|k: int| 0 <= k < r.len() && r[k] == y;
                if k == 0 {
                    assert(s[0] == y);
                    assert(s.contains(y));
                } else {
                    assert(t[k - 1] == y);
                    assert(t.contains(y));
                    assert(rest.contains(y) || y == x);
                    if rest.contains(y) {
                        let m = choose|m: int| 0 <= m < rest.len() && rest[m] == y;
                        assert(s[m + 1] == y);
                        assert(s.contains(y));
                    }
                }
            }
            if s.contains(y) {
                let k = choose|k: int| 0 <= k < s.len() && s[k] == y;
                if k == 0 {
                    assert(r[0] == y);
                } else {
                    assert(rest[k - 1] == y);
                    assert(rest.contains(y));
                    assert(t.contains(y));
                    let m = choose|m: int| 0 <= m < t.len() && t[m] == y;
                    assert(r[m + 1] == y);
                }
            }
            if y == x {
                assert(insert_sorted(rest, x).contains(x));
                assert(t.contains(x));
                let m = choose|m: int| 0 <= m < t.len() && t[m] == x;
                assert(r[m + 1] == x);
            }
        }
    }
}

/// Sorting with duplicates removed gives a strictly increasing list that
/// holds exactly the items of the input.
pub proof fn law_sort_dedup(l: Seq<Seq<char>>)
    ensures
        strictly_sorted(sort_dedup(l)),
        forall|y: Seq<char>| #[trigger] sort_dedup(l).contains(y) <==> l.contains(y),
    decreases l.len(),
{
    if l.len() > 0 {
        law_sort_dedup(l.drop_last());
        lemma_insert_sorted(sort_dedup(l.drop_last()), l.last());
        assert forall|y: Seq<char>| sort_dedup(l).contains(y) <==> l.contains(y) by {
            if l.drop_last().contains(y) {
                let k = choose|k: int| 0 <= k < l.drop_last().len() && l.drop_last()[k] == y;
                assert(l[k] == y);
            }
            if l.contains(y) {
                let k = choose|k: int| 0 <= k < l.len() && l[k] == y;
                if k < l.len() - 1 {
                    assert(l.drop_last()[k] == y);
                }
            }
        }
    } else {
        assert forall|y: Seq<char>| sort_dedup(l).contains(y) <==> l.contains(y) by {
        }
    }
}

/// The items of `l` in order, each later repeat of an item dropped.
pub open spec fn dedup_keep_first(l: Seq<Seq<char>>) -> Seq<Seq<char>>
    decreases l.len(),
{
    if l.len() == 0 {
        Seq::empty()
    } else {
        let d = dedup_keep_first(l.drop_last());
        if d.contains(l.last()) {
            d
        } else {
            d.push(l.last())
        }
    }
}

pub open spec fn no_repeats(s: Seq<Seq<char>>) -> bool {
    forall|i: int, j: int| 0 <= i < j < s.len() ==> s[i] != s[j]
}

/// Dropping later repeats keeps the first occurrence of every item, in
/// order, and leaves no repeat.
pub proof fn law_dedup_keep_first(l: Seq<Seq<char>>)
    ensures
        no_repeats(dedup_keep_first(l)),
        forall|y: Seq<char>| #[trigger] dedup_keep_first(l).contains(y) <==> l.contains(y),
        no_repeats(l) ==> dedup_keep_first(l) == l,
    decreases l.len(),
{
    if l.len() > 0 {
        let p = l.drop_last();
        law_dedup_keep_first(p);
        let d = dedup_keep_first(p);
        assert forall|y: Seq<char>| dedup_keep_first(l).contains(y) <==> l.contains(y) by {
            if p.contains(y) {
                let k = choose|k: int| 0 <= k < p.len() && p[k] == y;
                assert(l[k] == y);
            }
            if l.contains(y) {
                let k = choose|k: int| 0 <= k < l.len() && l[k] == y;
                if k < l.len() - 1 {
                    assert(p[k] == y);
                }
            }
            if dedup_keep_first(l).contains(y) && !d.contains(y) {
                let k = choose|k: int| 0 <= k < dedup_keep_first(l).len() && dedup_keep_first(l)[k] == y;
                if k < d.len() {
                    assert(d[k] == y);
                }
                assert(y == l.last());
                assert(l[l.len() - 1] == y);
            }
            if y == l.last() {
                assert(l[l.len() - 1] == y);
                if !d.contains(y) {
                    assert(d.push(y)[d.len() as int] == y);
                }
            }
            if d.contains(y) && !(d.contains(l.last())) {
                let k = choose|k: int| 0 <= k < d.len() && d[k] == y;
                assert(d.push(l.last())[k] == y);
            }
        }
        if !d.contains(l.last()) {
            assert forall|i: int, j: int| 0 <= i < j < d.push(l.last()).len() implies d.push(
                l.last(),
            )[i] != d.push(l.last())[j] by {
                if j == d.len() {
                    assert(d[i] == d.push(l.last())[i]);
                }
            }
        }
        if no_repeats(l) {
            assert(no_repeats(p));
            assert(!p.contains(l.last()));
            assert(l =~= p.push(l.last()));
        }
    }
}

/// A string list viewed as a sequence of character sequences.
pub open spec fn strs(v: Seq<String>) -> Seq<Seq<char>> {
    Seq::new(v.len(), |i: int| v[i]@)
}

// ---------------------------------------------------------------------------
// Trusted std primitive
// ---------------------------------------------------------------------------

/// `String::push`: appends one character at the end of the string.
#[verifier::external_body]
pub(crate) fn string_push(s: &mut String, c: char)
    ensures
        final(s)@ == old(s)@.push(c),
{
    s.push(c);
}

// ---------------------------------------------------------------------------
// Executable helpers
// ---------------------------------------------------------------------------

pub fn is_ws_char(c: char) -> (b: bool)
    ensures
        b == is_ws(c),
{
    c == '\t' || c == '\n' || c == '\u{0B}' || c == '\u{0C}' || c == '\r' || c == ' ' || c
        == '\u{85}' || c == '\u{A0}' || c == '\u{1680}' || ('\u{2000}' <= c && c <= '\u{200A}')
        || c == '\u{2028}' || c == '\u{2029}' || c == '\u{202F}' || c == '\u{205F}' || c
        == '\u{3000}'
}

pub fn is_ascii_alnum_char(c: char) -> (b: bool)
    ensures
        b == is_ascii_alnum(c),
{
    ('a' <= c && c <= 'z') || ('A' <= c && c <= 'Z') || ('0' <= c && c <= '9')
}

/// A new `String` holding `s`.
pub fn owned(s: &str) -> (r: String)
    ensures
        r@ == s@,
{
    s.to_owned()
}

/// `a` followed by `b`.
pub fn cat(a: &str, b: &str) -> (r: String)
    ensures
        r@ == a@ + b@,
{
    let mut r = a.to_owned();
    r.append(b);
    r
}

/// `a`, `b`, `c` in order.
pub fn cat3(a: &str, b: &str, c: &str) -> (r: String)
    ensures
        r@ == a@ + b@ + c@,
{
    let mut r = a.to_owned();
    r.append(b);
    r.append(c);
    r
}

pub fn starts_with(s: &str, p: &str) -> (b: bool)
    ensures
        b == has_prefix(s@, p@),
{
    let n = s.unicode_len();
    let m = p.unicode_len();
    if m > n {
        return false;
    }
    let mut i: usize = 0;
    while i < m
        invariant
            n == s@.len(),
            m == p@.len(),
            m <= n,
            i <= m,
            forall|k: int| 0 <= k < i ==> s@[k] == p@[k],
        decreases m - i,
    {
        if s.get_char(i) != p.get_char(i) {
            assert(s@.subrange(0, m as int)[i as int] != p@[i as int]);
            return false;
        }
        i = i + 1;
    }
    assert(s@.subrange(0, m as int) =~= p@);
    true
}

pub fn ends_with(s: &str, p: &str) -> (b: bool)
    ensures
        b == has_suffix(s@, p@),
{
    let n = s.unicode_len();
    let m = p.unicode_len();
    if m > n {
        return false;
    }
    let off = n - m;
    let mut i: usize = 0;
    while i < m
        invariant
            n == s@.len(),
            m == p@.len(),
            m <= n,
            off == n - m,
            i <= m,
            forall|k: int| 0 <= k < i ==> s@[off + k] == p@[k],
        decreases m - i,
    {
        if s.get_char(off + i) != p.get_char(i) {
            assert(s@.subrange(off as int, n as int)[i as int] != p@[i as int]);
            return false;
        }
        i = i + 1;
    }
    assert(s@.subrange(off as int, n as int) =~= p@);
    true
}

/// Character-wise equality.
pub fn str_eq(a: &str, b: &str) -> (r: bool)
    ensures
        r == (a@ == b@),
{
    let n = a.unicode_len();
    if n != b.unicode_len() {
        return false;
    }
    let mut i: usize = 0;
    while i < n
        invariant
            n == a@.len(),
            n == b@.len(),
            i <= n,
            forall|k: int| 0 <= k < i ==> a@[k] == b@[k],
        decreases n - i,
    {
        if a.get_char(i) != b.get_char(i) {
            return false;
        }
        i = i + 1;
    }
    assert(a@ =~= b@);
    true
}

/// Whether `p` occurs in `s` at position `i`.
pub fn matches_at(s: &str, p: &str, i: usize) -> (b: bool)
    requires
        i <= s@.len(),
    ensures
        b == occurs_at(s@, p@, i as int),
{
    let n = s.unicode_len();
    let m = p.unicode_len();
    if m > n - i {
        return false;
    }
    let mut k: usize = 0;
    while k < m
        invariant
            n == s@.len(),
            m == p@.len(),
            i + m <= n,
            k <= m,
            forall|j: int| 0 <= j < k ==> s@[i + j] == p@[j],
        decreases m - k,
    {
        if s.get_char(i + k) != p.get_char(k) {
            assert(s@.subrange(i as int, i + m)[k as int] != p@[k as int]);
            return false;
        }
        k = k + 1;
    }
    assert(s@.subrange(i as int, i + m) =~= p@);
    true
}

/// First position at or after `from` where `p` occurs in `s`.
pub fn find_from(s: &str, p: &str, from: usize) -> (r: Option<usize>)
    requires
        from <= s@.len(),
    ensures
        match r {
            Some(i) => from <= i && occurs_at(s@, p@, i as int) && forall|j: int|
                from <= j < i ==> !occurs_at(s@, p@, j),
            None => forall|j: int| from <= j ==> !occurs_at(s@, p@, j),
        },
        match r {
            Some(i) => index_of_from(s@, p@, from as int) == Some(i as int),
            None => index_of_from(s@, p@, from as int) is None,
        },
{
    let n = s.unicode_len();
    let mut i = from;
    while i < n
        invariant
            n == s@.len(),
            from <= i <= n,
            forall|j: int| from <= j < i ==> !occurs_at(s@, p@, j),
            index_of_from(s@, p@, from as int) == index_of_from(s@, p@, i as int),
        decreases n - i,
    {
        if matches_at(s, p, i) {
            return Some(i);
        }
        i = i + 1;
    }
    if matches_at(s, p, n) {
        return Some(n);
    }
    assert(index_of_from(s@, p@, n + 1) is None);
    None
}

pub fn contains(s: &str, p: &str) -> (b: bool)
    ensures
        b == contains_seq(s@, p@),
{
    match find_from(s, p, 0) {
        Some(i) => true,
        None => false,
    }
}

/// Index of the first non-whitespace char at or after `i`.
pub fn skip_ws_exec(s: &str, i: usize) -> (r: usize)
    requires
        i <= s@.len(),
    ensures
        r as int == skip_ws(s@, i as int),
        i <= r <= s@.len(),
{
    let n = s.unicode_len();
    let mut k = i;
    while k < n && is_ws_char(s.get_char(k))
        invariant
            n == s@.len(),
            i <= k <= n,
            skip_ws(s@, i as int) == skip_ws(s@, k as int),
        decreases n - k,
    {
        k = k + 1;
    }
    k
}

proof fn lemma_back_ws_bounds(s: Seq<char>, j: int)
    requires
        0 <= j <= s.len(),
    ensures
        0 <= back_ws(s, j) <= j,
    decreases j,
{
    if j > 0 && is_ws(s[j - 1]) {
        lemma_back_ws_bounds(s, j - 1);
    }
}

proof fn lemma_back_ws_last(s: Seq<char>, j: int)
    requires
        0 <= j <= s.len(),
    ensures
        0 <= back_ws(s, j) <= j,
        back_ws(s, j) > 0 ==> !is_ws(s[back_ws(s, j) - 1]),
    decreases j,
{
    if j > 0 && is_ws(s[j - 1]) {
        lemma_back_ws_last(s, j - 1);
    }
}

/// A text that neither starts nor ends with whitespace.
pub open spec fn trimmed(x: Seq<char>) -> bool {
    x.len() > 0 && !is_ws(x[0]) && !is_ws(x.last())
}

/// A non-blank trim is trimmed, is a piece of the text, and trimming it
/// again changes nothing.
pub proof fn lemma_trim(s: Seq<char>)
    ensures
        trim(s).len() > 0 ==> trimmed(trim(s)),
        trim(s).len() > 0 ==> exists|a: int, b: int| 0 <= a < b <= s.len() && trim(s) == s.subrange(a, b),
        trimmed(s) ==> trim(s) == s,
{
    lemma_skip_ws_bounds(s, 0);
    lemma_back_ws_last(s, s.len() as int);
    let a = skip_ws(s, 0);
    let b = back_ws(s, s.len() as int);
    if a < b {
        assert(trim(s)[0] == s[a]);
        assert(trim(s).last() == s[b - 1]);
    }
    if trimmed(s) {
        assert(back_ws(s, s.len() as int) == s.len());
        assert(s.subrange(0, s.len() as int) =~= s);
    }
}

/// A trimmed text is its own trim.
pub proof fn lemma_trim_fixed(s: Seq<char>)
    requires
        trimmed(s),
    ensures
        trim(s) == s,
{
    lemma_trim(s);
}

/// No segment of a split holds the separator.
pub proof fn lemma_split_segments(s: Seq<char>, c: char)
    ensures
        forall|i: int| 0 <= i < split_on(s, c).len() ==> !(#[trigger] split_on(s, c)[i]).contains(c),
    decreases s.len(),
{
    lemma_split_on_nonempty(s, c);
    if s.len() > 0 {
        let r = split_on(s.drop_last(), c);
        lemma_split_segments(s.drop_last(), c);
        lemma_split_on_nonempty(s.drop_last(), c);
        if s.last() != c {
            assert forall|i: int| 0 <= i < split_on(s, c).len() implies !(#[trigger] split_on(
                s,
                c,
            )[i]).contains(c) by {
                if i == r.len() - 1 {
                    let x = r.last().push(s.last());
                    assert(split_on(s, c)[i] == x);
                    if x.contains(c) {
                        let k = choose|k: int| 0 <= k < x.len() && x[k] == c;
                        assert(r.last()[k] == c);
                        assert(r[r.len() - 1].contains(c));
                    }
                } else {
                    assert(split_on(s, c)[i] == r[i]);
                }
            }
        } else {
            assert forall|i: int| 0 <= i < split_on(s, c).len() implies !(#[trigger] split_on(
                s,
                c,
            )[i]).contains(c) by {
                if i < r.len() {
                    assert(split_on(s, c)[i] == r[i]);
                }
            }
        }
    }
}

/// A text without the separator is a single segment.
pub proof fn lemma_split_single(x: Seq<char>, c: char)
    requires
        !x.contains(c),
    ensures
        split_on(x, c) == seq![x],
    decreases x.len(),
{
    if x.len() > 0 {
        assert(!x.drop_last().contains(c)) by {
            if x.drop_last().contains(c) {
                let k = choose|k: int| 0 <= k < x.drop_last().len() && x.drop_last()[k] == c;
                assert(x[k] == c);
            }
        }
        lemma_split_single(x.drop_last(), c);
        assert(x[x.len() - 1] != c);
        assert(x.drop_last().push(x.last()) =~= x);
        assert(split_on(x, c) =~= seq![x]);
    } else {
        assert(x =~= Seq::<char>::empty());
        assert(split_on(x, c) =~= seq![x]);
    }
}

/// Splitting `a`, the separator, then a text without it: the segments of
/// `a` and that text.
pub proof fn lemma_split_append(a: Seq<char>, b: Seq<char>, c: char)
    requires
        !b.contains(c),
    ensures
        split_on(a.push(c) + b, c) == split_on(a, c).push(b),
    decreases b.len(),
{
    if b.len() == 0 {
        assert(b =~= Seq::<char>::empty());
        assert(a.push(c) + b =~= a.push(c));
        assert(a.push(c).drop_last() =~= a);
        assert(split_on(a, c).push(b) =~= split_on(a, c).push(Seq::<char>::empty()));
    } else {
        let bd = b.drop_last();
        assert(!bd.contains(c)) by {
            if bd.contains(c) {
                let k = choose|k: int| 0 <= k < bd.len() && bd[k] == c;
                assert(b[k] == c);
            }
        }
        lemma_split_append(a, bd, c);
        let s = a.push(c) + b;
        assert(s.drop_last() =~= a.push(c) + bd);
        assert(s.last() == b[b.len() - 1]);
        assert(b[b.len() - 1] != c);
        let r = split_on(a, c).push(bd);
        assert(bd.push(b.last()) =~= b);
        assert(r.update(r.len() - 1, r.last().push(s.last())) =~= split_on(a, c).push(b));
    }
}

/// Joining lines with `\n` and splitting the text again gives the lines
/// back, when none of them holds `\n`.
pub proof fn lemma_split_join(l: Seq<Seq<char>>)
    requires
        l.len() > 0,
        forall|i: int| 0 <= i < l.len() ==> !(#[trigger] l[i]).contains('\n'),
    ensures
        split_on(join(l, "\n"@), '\n') == l,
    decreases l.len(),
{
    reveal_strlit("\n");
    if l.len() == 1 {
        lemma_split_single(l[0], '\n');
        assert(seq![l[0]] =~= l);
    } else {
        let d = l.drop_last();
        assert forall|i: int| 0 <= i < d.len() implies !(#[trigger] d[i]).contains('\n') by {
            assert(d[i] == l[i]);
        }
        lemma_split_join(d);
        assert(join(d, "\n"@) + "\n"@ + l.last() =~= join(d, "\n"@).push('\n') + l.last());
        assert(!l[l.len() - 1].contains('\n'));
        lemma_split_append(join(d, "\n"@), l.last(), '\n');
        assert(d.push(l.last()) =~= l);
    }
}

proof fn lemma_skip_ws_bounds(s: Seq<char>, i: int)
    requires
        0 <= i <= s.len(),
    ensures
        i <= skip_ws(s, i) <= s.len(),
        skip_ws(s, i) < s.len() ==> !is_ws(s[skip_ws(s, i)]),
        forall|k: int| i <= k < skip_ws(s, i) ==> is_ws(s[k]),
    decreases s.len() - i,
{
    if i < s.len() && is_ws(s[i]) {
        lemma_skip_ws_bounds(s, i + 1);
    }
}

/// `str::trim`.
pub fn trim_exec(s: &str) -> (r: String)
    ensures
        r@ == trim(s@),
{
    let n = s.unicode_len();
    let a = skip_ws_exec(s, 0);
    let mut b = n;
    while b > 0 && is_ws_char(s.get_char(b - 1))
        invariant
            n == s@.len(),
            b <= n,
            back_ws(s@, n as int) == back_ws(s@, b as int),
        decreases b,
    {
        b = b - 1;
    }
    proof {
        lemma_back_ws_bounds(s@, b as int);
    }
    assert(back_ws(s@, b as int) == b);
    if a < b {
        owned(s.substring_char(a, b))
    } else {
        String::new()
    }
}

/// Whether the UTF-8 encoding of `s` is longer than `limit` bytes.
pub fn utf8_len_exceeds(s: &str, limit: usize) -> (b: bool)
    ensures
        b == (utf8_len(s@) > limit),
{
    let n = s.unicode_len();
    let mut acc: usize = 0;
    let mut i: usize = 0;
    while i < n
        invariant
            n == s@.len(),
            i <= n,
            acc == utf8_len(s@.take(i as int)),
            acc <= limit,
        decreases n - i,
    {
        let c = s.get_char(i);
        let w: usize = if (c as u32) < 0x80 {
            1
        } else if (c as u32) < 0x800 {
            2
        } else if (c as u32) < 0x10000 {
            3
        } else {
            4
        };
        assert(s@.take(i + 1).drop_last() =~= s@.take(i as int));
        assert(s@.take(i + 1).last() == c);
        if w > limit - acc {
            proof {
                lemma_utf8_len_prefix(s@, i + 1);
            }
            return true;
        }
        acc = acc + w;
        i = i + 1;
    }
    assert(s@.take(n as int) =~= s@);
    false
}

/// A prefix is never longer, in bytes, than the whole.
pub proof fn lemma_utf8_len_prefix(s: Seq<char>, k: int)
    requires
        0 <= k <= s.len(),
    ensures
        utf8_len(s.take(k)) <= utf8_len(s),
    decreases s.len() - k,
{
    if k < s.len() {
        lemma_utf8_len_prefix(s, k + 1);
        assert(s.take(k + 1).drop_last() =~= s.take(k));
    } else {
        assert(s.take(k) =~= s);
    }
}

/// Decimal notation of `n`.
pub fn decimal_string(n: u64) -> (r: String)
    ensures
        r@ == decimal(n as nat),
    decreases n,
{
    let d = n % 10;
    let c = if d == 0 { '0' }
        else if d == 1 { '1' }
        else if d == 2 { '2' }
        else if d == 3 { '3' }
        else if d == 4 { '4' }
        else if d == 5 { '5' }
        else if d == 6 { '6' }
        else if d == 7 { '7' }
        else if d == 8 { '8' }
        else { '9' };
    assert(c == digit_char((n % 10) as nat));
    if n < 10 {
        let mut r = String::new();
        string_push(&mut r, c);
        assert(r@ =~= seq![digit_char(n as nat)]);
        r
    } else {
        let mut r = decimal_string(n / 10);
        string_push(&mut r, c);
        r
    }
}

/// Join of `list` with `sep` between items.
pub fn join_strings(list: &Vec<String>, sep: &str) -> (r: String)
    ensures
        r@ == join(strs(list@), sep@),
{
    let mut r = String::new();
    let mut i: usize = 0;
    let ghost l = strs(list@);
    while i < list.len()
        invariant
            i <= list@.len(),
            l == strs(list@),
            r@ == join(l.take(i as int), sep@),
        decreases list.len() - i,
    {
        if i != 0 {
            r.append(sep);
        }
        r.append(list[i].as_str());
        assert(l.take(i + 1).drop_last() =~= l.take(i as int));
        i = i + 1;
    }
    assert(l.take(list@.len() as int) =~= l);
    r
}


/// `str::to_lowercase`: full Unicode lower-casing of `s`, given by the name
/// `lowercase`; on ASCII text it maps `A`-`Z` to `a`-`z` and keeps the rest.
#[verifier::external_body]
pub(crate) fn to_lowercase(s: &str) -> (r: String)
    ensures
        r@ == lowercase(s@),
        all_ascii(s@) ==> r@ == ascii_lowercase(s@),
{
    s.to_lowercase()
}

/// `String::from_utf8_lossy`: the bytes decoded as UTF-8, each invalid
/// sequence replaced by U+FFFD; ASCII bytes decode to the same chars.
#[verifier::external_body]
pub(crate) fn utf8_lossy_exec(bytes: &[u8]) -> (r: String)
    ensures
        r@ == utf8_lossy(bytes@),
        all_ascii_bytes(bytes@) ==> r@ == ascii_chars(bytes@),
{
    String::from_utf8_lossy(bytes).to_string()
}

/// `str::strip_prefix`.
pub fn strip_prefix_exec(s: &str, p: &str) -> (r: Option<String>)
    ensures
        opt_view(r) == after_prefix(s@, p@),
{
    if starts_with(s, p) {
        let n = s.unicode_len();
        let m = p.unicode_len();
        Some(owned(s.substring_char(m, n)))
    } else {
        None
    }
}

/// Trimming brings in no character that the text lacks.
pub proof fn lemma_trim_char_keeps_out(s: Seq<char>, c: char, x: char)
    requires
        !s.contains(x),
    ensures
        !trim_char(s, c).contains(x),
{
    lemma_strip_lead_keeps_out(s, c, x);
    lemma_strip_trail_keeps_out(strip_lead(s, c), c, x);
}

proof fn lemma_strip_lead_keeps_out(s: Seq<char>, c: char, x: char)
    requires
        !s.contains(x),
    ensures
        !strip_lead(s, c).contains(x),
    decreases s.len(),
{
    if s.len() > 0 && s[0] == c {
        assert(!s.drop_first().contains(x)) by {
            if s.drop_first().contains(x) {
                let k = choose|k: int| 0 <= k < s.drop_first().len() && s.drop_first()[k] == x;
                assert(s[k + 1] == x);
            }
        }
        lemma_strip_lead_keeps_out(s.drop_first(), c, x);
    }
}

proof fn lemma_strip_trail_keeps_out(s: Seq<char>, c: char, x: char)
    requires
        !s.contains(x),
    ensures
        !strip_trail(s, c).contains(x),
    decreases s.len(),
{
    if s.len() > 0 && s.last() == c {
        assert(!s.drop_last().contains(x)) by {
            if s.drop_last().contains(x) {
                let k = choose|k: int| 0 <= k < s.drop_last().len() && s.drop_last()[k] == x;
                assert(s[k] == x);
            }
        }
        lemma_strip_trail_keeps_out(s.drop_last(), c, x);
    }
}

proof fn lemma_strip_lead_skip(s: Seq<char>, c: char, i: int)
    requires
        0 <= i <= s.len(),
        forall|k: int| 0 <= k < i ==> s[k] == c,
    ensures
        strip_lead(s, c) == strip_lead(s.subrange(i, s.len() as int), c),
    decreases i,
{
    if i > 0 {
        assert(s.drop_first().subrange(i - 1, s.drop_first().len() as int) =~= s.subrange(
            i,
            s.len() as int,
        ));
        lemma_strip_lead_skip(s.drop_first(), c, i - 1);
    } else {
        assert(s.subrange(0, s.len() as int) =~= s);
    }
}

proof fn lemma_strip_trail_skip(s: Seq<char>, c: char, j: int)
    requires
        0 <= j <= s.len(),
        forall|k: int| j <= k < s.len() ==> s[k] == c,
    ensures
        strip_trail(s, c) == strip_trail(s.subrange(0, j), c),
    decreases s.len() - j,
{
    if j < s.len() {
        assert(s.drop_last().subrange(0, j) =~= s.subrange(0, j));
        lemma_strip_trail_skip(s.drop_last(), c, j);
    } else {
        assert(s.subrange(0, j) =~= s);
    }
}

/// `str::trim_matches(c)`.
pub fn trim_char_exec(s: &str, c: char) -> (r: String)
    ensures
        r@ == trim_char(s@, c),
{
    let n = s.unicode_len();
    let mut i: usize = 0;
    while i < n && s.get_char(i) == c
        invariant
            n == s@.len(),
            i <= n,
            forall|k: int| 0 <= k < i ==> s@[k] == c,
        decreases n - i,
    {
        i = i + 1;
    }
    proof {
        lemma_strip_lead_skip(s@, c, i as int);
    }
    let rest = s.substring_char(i, n);
    let m = rest.unicode_len();
    assert(i == n || s@[i as int] != c);
    assert(strip_lead(rest@, c) == rest@);
    let mut j: usize = m;
    while j > 0 && rest.get_char(j - 1) == c
        invariant
            m == rest@.len(),
            j <= m,
            forall|k: int| j <= k < m ==> rest@[k] == c,
        decreases j,
    {
        j = j - 1;
    }
    proof {
        lemma_strip_trail_skip(rest@, c, j as int);
    }
    owned(rest.substring_char(0, j))
}

/// `bytes[from..to]` as a vector.
pub fn byte_range(bytes: &Vec<u8>, from: usize, to: usize) -> (r: Vec<u8>)
    requires
        from <= to <= bytes@.len(),
    ensures
        r@ == bytes@.subrange(from as int, to as int),
{
    let mut r: Vec<u8> = Vec::new();
    let mut i = from;
    while i < to
        invariant
            from <= i <= to,
            to <= bytes@.len(),
            r@ == bytes@.subrange(from as int, i as int),
        decreases to - i,
    {
        r.push(bytes[i]);
        i = i + 1;
    }
    r
}

proof fn lemma_digits_value_grows(d: Seq<char>, j: int)
    requires
        0 <= j <= d.len(),
        all_digits(d),
    ensures
        digits_value(d) >= digits_value(d.take(j)),
    decreases d.len(),
{
    if j < d.len() {
        let e = d.drop_last();
        assert(all_digits(e)) by {
            assert forall|i: int| 0 <= i < e.len() implies is_digit(#[trigger] e[i]) by {
                assert(e[i] == d[i]);
            }
        }
        lemma_digits_value_grows(e, j);
        assert(e.take(j) =~= d.take(j));
    } else {
        assert(d.take(j) =~= d);
    }
}

/// `str::parse` of an unsigned integer no larger than `max`.
pub fn parse_unsigned_exec(s: &str, max: u64) -> (r: Option<u64>)
    ensures
        match r {
            Some(v) => parse_unsigned(s@, max as nat) == Some(v as nat),
            None => parse_unsigned(s@, max as nat) is None,
        },
{
    let n = s.unicode_len();
    let start: usize = if n > 0 && s.get_char(0) == '+' { 1 } else { 0 };
    let ghost d = if s@.len() > 0 && s@[0] == '+' {
        s@.drop_first()
    } else {
        s@
    };
    assert(d =~= s@.subrange(start as int, n as int));
    if start >= n {
        return None;
    }
    let mut value: u64 = 0;
    let mut i = start;
    assert(d.take(0) =~= Seq::<char>::empty());
    while i < n
        invariant
            n == s@.len(),
            start <= i <= n,
            d == s@.subrange(start as int, n as int),
            d == (if s@.len() > 0 && s@[0] == '+' {
                s@.drop_first()
            } else {
                s@
            }),
            value <= max,
            value as nat == digits_value(d.take(i - start)),
            all_digits(d.take(i - start)),
        decreases n - i,
    {
        let c = s.get_char(i);
        let ghost k = i - start;
        assert(d[k] == c);
        assert(d.take(k + 1).drop_last() =~= d.take(k));
        assert(d.take(k + 1).last() == c);
        if !('0' <= c && c <= '9') {
            assert(!all_digits(d));
            return None;
        }
        let dv = (c as u32 - 48) as u128;
        let next: u128 = (value as u128) * 10 + dv;
        if next > max as u128 {
            proof {
                if all_digits(d) {
                    lemma_digits_value_grows(d, k + 1);
                }
            }
            return None;
        }
        value = next as u64;
        assert(all_digits(d.take(k + 1))) by {
            assert forall|j: int| 0 <= j < k + 1 implies is_digit(#[trigger] d.take(k + 1)[j]) by {
                if j < k {
                    assert(d.take(k + 1)[j] == d.take(k)[j]);
                }
            }
        }
        i = i + 1;
    }
    assert(d.take(n - start) =~= d);
    Some(value)
}

/// Push one string onto a list.
pub fn push_line(out: &mut Vec<String>, line: String)
    ensures
        strs(final(out)@) == strs(old(out)@).push(line@),
{
    let ghost before = strs(out@);
    out.push(line);
    assert(strs(out@) =~= before.push(line@));
}

/// Push every item of `items` wrapped between `pre` and `post`.
pub fn push_wrapped(out: &mut Vec<String>, items: &Vec<String>, pre: &str, post: &str)
    ensures
        strs(final(out)@) == strs(old(out)@) + wrap_each(strs(items@), pre@, post@),
{
    let ghost start = strs(out@);
    let ghost l = strs(items@);
    let mut i: usize = 0;
    while i < items.len()
        invariant
            i <= items@.len(),
            l == strs(items@),
            strs(out@) == start + wrap_each(l, pre@, post@).take(i as int),
        decreases items.len() - i,
    {
        let line = cat3(pre, items[i].as_str(), post);
        push_line(out, line);
        assert(wrap_each(l, pre@, post@).take(i + 1) =~= wrap_each(l, pre@, post@).take(
            i as int,
        ).push(pre@ + l[i as int] + post@));
        i = i + 1;
    }
    assert(wrap_each(l, pre@, post@).take(items@.len() as int) =~= wrap_each(l, pre@, post@));
}

/// Push every item of `items` as is.
pub fn push_all(out: &mut Vec<String>, items: &Vec<String>)
    ensures
        strs(final(out)@) == strs(old(out)@) + strs(items@),
{
    let ghost start = strs(out@);
    let ghost l = strs(items@);
    let mut i: usize = 0;
    while i < items.len()
        invariant
            i <= items@.len(),
            l == strs(items@),
            strs(out@) == start + l.take(i as int),
        decreases items.len() - i,
    {
        push_line(out, items[i].clone());
        assert(l.take(i + 1) =~= l.take(i as int).push(l[i as int]));
        i = i + 1;
    }
    assert(l.take(items@.len() as int) =~= l);
}

/// `s` split at every `c`.
pub fn split_on_exec(s: &str, c: char) -> (r: Vec<String>)
    ensures
        strs(r@) == split_on(s@, c),
{
    let n = s.unicode_len();
    let mut parts: Vec<String> = Vec::new();
    let mut cur = String::new();
    let mut i: usize = 0;
    assert(s@.take(0) =~= Seq::<char>::empty());
    while i < n
        invariant
            n == s@.len(),
            i <= n,
            strs(parts@).push(cur@) == split_on(s@.take(i as int), c),
        decreases n - i,
    {
        let ch = s.get_char(i);
        let ghost prev = split_on(s@.take(i as int), c);
        assert(s@.take(i + 1).drop_last() =~= s@.take(i as int));
        assert(s@.take(i + 1).last() == ch);
        if ch == c {
            push_line(&mut parts, cur);
            cur = String::new();
            assert(strs(parts@).push(cur@) =~= prev.push(Seq::<char>::empty()));
        } else {
            string_push(&mut cur, ch);
            assert(strs(parts@).push(cur@) =~= prev.update(prev.len() - 1, prev.last().push(ch)));
        }
        i = i + 1;
    }
    assert(s@.take(n as int) =~= s@);
    push_line(&mut parts, cur);
    parts
}

/// Drop one trailing `\r`.
pub fn strip_cr_exec(x: String) -> (r: String)
    ensures
        r@ == strip_cr(x@),
{
    let n = x.as_str().unicode_len();
    if n > 0 && x.as_str().get_char(n - 1) == '\r' {
        owned(x.as_str().substring_char(0, n - 1))
    } else {
        x
    }
}

/// `str::lines`.
pub fn lines_exec(s: &str) -> (r: Vec<String>)
    ensures
        strs(r@) == lines_of(s@),
{
    let mut segs = split_on_exec(s, '\n');
    proof {
        lemma_split_on_nonempty(s@, '\n');
    }
    let ghost all = strs(segs@);
    let last = segs.pop().unwrap();
    let ghost full = all.drop_last();
    assert(strs(segs@) =~= full);
    let mut out: Vec<String> = Vec::new();
    let mut i: usize = 0;
    while i < segs.len()
        invariant
            i <= segs@.len(),
            strs(segs@) == full,
            strs(out@) == Seq::new(full.len(), |k: int| strip_cr(full[k])).take(i as int),
        decreases segs.len() - i,
    {
        let line = strip_cr_exec(segs[i].clone());
        push_line(&mut out, line);
        assert(Seq::new(full.len(), |k: int| strip_cr(full[k])).take(i + 1) =~= Seq::new(
            full.len(),
            |k: int| strip_cr(full[k]),
        ).take(i as int).push(strip_cr(full[i as int])));
        i = i + 1;
    }
    assert(Seq::new(full.len(), |k: int| strip_cr(full[k])).take(segs@.len() as int) =~= Seq::new(
        full.len(),
        |k: int| strip_cr(full[k]),
    ));
    if last.as_str().unicode_len() > 0 {
        push_line(&mut out, last);
    }
    out
}

/// `str::split_whitespace`.
pub fn ws_tokens_exec(s: &str) -> (r: Vec<String>)
    ensures
        strs(r@) == ws_tokens(s@),
{
    let n = s.unicode_len();
    let mut toks: Vec<String> = Vec::new();
    let mut in_tok = false;
    let mut i: usize = 0;
    assert(s@.take(0) =~= Seq::<char>::empty());
    while i < n
        invariant
            n == s@.len(),
            i <= n,
            strs(toks@) == ws_tokens(s@.take(i as int)),
            in_tok == (i > 0 && !is_ws(s@[i - 1])),
            in_tok ==> toks@.len() > 0,
        decreases n - i,
    {
        let ch = s.get_char(i);
        let ghost prev = ws_tokens(s@.take(i as int));
        let ghost t = s@.take(i + 1);
        assert(t.drop_last() =~= s@.take(i as int));
        assert(t.last() == ch);
        assert(i > 0 ==> t[t.len() - 2] == s@[i - 1]);
        if is_ws_char(ch) {
            in_tok = false;
        } else if in_tok {
            let mut last = toks.pop().unwrap();
            string_push(&mut last, ch);
            push_line(&mut toks, last);
            assert(strs(toks@) =~= prev.update(prev.len() - 1, prev.last().push(ch)));
            in_tok = true;
        } else {
            let mut tok = String::new();
            string_push(&mut tok, ch);
            push_line(&mut toks, tok);
            assert(strs(toks@) =~= prev.push(seq![ch]));
            in_tok = true;
        }
        i = i + 1;
    }
    assert(s@.take(n as int) =~= s@);
    toks
}

/// `str::replace` for a non-empty pattern.
pub fn replace_all_exec(s: &str, from: &str, to: &str) -> (r: String)
    requires
        from@.len() > 0,
    ensures
        r@ == replace_all(s@, from@, to@),
{
    let n = s.unicode_len();
    let m = from.unicode_len();
    let mut out = String::new();
    let mut i: usize = 0;
    while i < n
        invariant
            n == s@.len(),
            m == from@.len(),
            m > 0,
            i <= n,
            out@ + replace_from(s@, from@, to@, i as int) == replace_all(s@, from@, to@),
        decreases n - i,
    {
        if matches_at(s, from, i) {
            let ghost o = out@;
            out.append(to);
            assert(replace_from(s@, from@, to@, i as int) == to@ + replace_from(
                s@,
                from@,
                to@,
                i + m,
            ));
            assert(out@ + replace_from(s@, from@, to@, (i + m) as int) =~= o + (to@
                + replace_from(s@, from@, to@, (i + m) as int)));
            i = i + m;
        } else {
            let ch = s.get_char(i);
            let ghost o = out@;
            string_push(&mut out, ch);
            assert(replace_from(s@, from@, to@, i as int) == seq![ch] + replace_from(
                s@,
                from@,
                to@,
                i + 1,
            ));
            assert(out@ + replace_from(s@, from@, to@, i + 1) =~= o + (seq![ch] + replace_from(
                s@,
                from@,
                to@,
                i + 1,
            )));
            i = i + 1;
        }
    }
    assert(replace_from(s@, from@, to@, i as int) =~= Seq::<char>::empty());
    assert(out@ =~= replace_all(s@, from@, to@));
    out
}

/// Non-overlapping occurrences of a non-empty `p` in `s`.
pub fn count_occurrences(s: &str, p: &str) -> (r: u64)
    requires
        p@.len() > 0,
    ensures
        r == count_from(s@, p@, 0),
        r <= s@.len(),
{
    let n = s.unicode_len();
    let m = p.unicode_len();
    let mut count: u64 = 0;
    let mut i: usize = 0;
    while i < n
        invariant
            n == s@.len(),
            m == p@.len(),
            m > 0,
            i <= n,
            count <= i,
            count + count_from(s@, p@, i as int) == count_from(s@, p@, 0),
        decreases n - i,
    {
        if matches_at(s, p, i) {
            count = count + 1;
            i = i + m;
        } else {
            i = i + 1;
        }
    }
    count
}


/// `Path::file_name`.
pub fn file_name_exec(p: &str) -> (r: Option<String>)
    ensures
        match r {
            Some(x) => file_name(p@) == Some(x@),
            None => file_name(p@) is None,
        },
{
    let segs = split_on_exec(p, '/');
    let ghost all = strs(segs@);
    let mut j = segs.len();
    assert(all.take(j as int) =~= all);
    while j > 0
        invariant
            j <= segs@.len(),
            all == strs(segs@),
            all == split_on(p@, '/'),
            last_component(all) == last_component(all.take(j as int)),
        decreases j,
    {
        let seg = segs[j - 1].as_str();
        assert(all.take(j as int).drop_last() =~= all.take(j - 1));
        assert(all.take(j as int).last() == seg@);
        if seg.unicode_len() == 0 || str_eq(seg, ".") {
            j = j - 1;
        } else {
            assert(last_component(all) == Some(seg@));
            assert(all == split_on(p@, '/'));
            assert(last_component(split_on(p@, '/')) == Some(seg@));
            if str_eq(seg, "..") {
                assert(seg@ == ".."@);
                assert(file_name(p@) is None);
                return None;
            }
            return Some(seg.to_owned());
        }
    }
    assert(all.take(0) =~= Seq::<Seq<char>>::empty());
    None
}

/// `Path::extension`.
pub fn extension_exec(p: &str) -> (r: Option<String>)
    ensures
        match r {
            Some(x) => extension(p@) == Some(x@),
            None => extension(p@) is None,
        },
{
    match file_name_exec(p) {
        None => None,
        Some(f) => {
            let n = f.as_str().unicode_len();
            let mut j = n;
            while j > 0
                invariant
                    n == f@.len(),
                    j <= n,
                    file_name(p@) == Some(f@),
                    last_index_below(f@, '.', n as int) == last_index_below(f@, '.', j as int),
                decreases j,
            {
                if f.as_str().get_char(j - 1) == '.' {
                    assert(last_index_below(f@, '.', n as int) == Some(j - 1));
                    if j - 1 == 0 {
                        return None;
                    }
                    return Some(owned(f.as_str().substring_char(j, n)));
                }
                j = j - 1;
            }
            None
        },
    }
}


/// `a < b` in lexicographic order.
pub fn str_less(a: &str, b: &str) -> (r: bool)
    ensures
        r == str_lt(a@, b@),
{
    let n = a.unicode_len();
    let m = b.unicode_len();
    let mut i: usize = 0;
    assert(a@.skip(0) =~= a@);
    assert(b@.skip(0) =~= b@);
    while i < n && i < m
        invariant
            n == a@.len(),
            m == b@.len(),
            i <= n,
            i <= m,
            str_lt(a@, b@) == str_lt(a@.skip(i as int), b@.skip(i as int)),
        decreases n - i,
    {
        let x = a.get_char(i);
        let y = b.get_char(i);
        assert(a@.skip(i as int)[0] == x);
        assert(b@.skip(i as int)[0] == y);
        if x != y {
            return (x as u32) < (y as u32);
        }
        assert(a@.skip(i as int).drop_first() =~= a@.skip(i + 1));
        assert(b@.skip(i as int).drop_first() =~= b@.skip(i + 1));
        i = i + 1;
    }
    i < m
}

/// Insert `x` into `v` as `insert_sorted` does.
pub fn insert_sorted_exec(v: &mut Vec<String>, x: String)
    ensures
        strs(final(v)@) == insert_sorted(strs(old(v)@), x@),
{
    let ghost s = strs(v@);
    let mut k: usize = 0;
    assert(s.skip(0) =~= s);
    assert(s.take(0) + s.skip(0) =~= s);
    while k < v.len()
        invariant
            k <= v@.len(),
            s == strs(v@),
            s == strs(old(v)@),
            insert_sorted(s, x@) == s.take(k as int) + insert_sorted(s.skip(k as int), x@),
        decreases v.len() - k,
    {
        let ghost t = s.skip(k as int);
        assert(t.len() > 0);
        assert(t[0] == v@[k as int]@);
        if str_eq(v[k].as_str(), x.as_str()) {
            assert(insert_sorted(t, x@) == t);
            assert(s.take(k as int) + t =~= s);
            return ;
        }
        if str_less(x.as_str(), v[k].as_str()) {
            assert(insert_sorted(t, x@) == seq![x@] + t);
            v.insert(k, x);
            assert(strs(v@) =~= s.take(k as int) + (seq![x@] + t));
            return ;
        }
        assert(t.drop_first() =~= s.skip(k + 1));
        assert(s.take(k + 1) =~= s.take(k as int) + seq![t[0]]);
        proof {
            i_assoc(s.take(k as int), seq![t[0]], insert_sorted(s.skip(k + 1), x@));
        }
        k = k + 1;
    }
    assert(s.skip(k as int) =~= Seq::<Seq<char>>::empty());
    assert(s.take(k as int) =~= s);
    push_line(v, x);
}

/// Sort and deduplicate a list of strings.
pub fn sort_dedup_exec(l: &Vec<String>) -> (r: Vec<String>)
    ensures
        strs(r@) == sort_dedup(strs(l@)),
{
    let ghost all = strs(l@);
    let mut out: Vec<String> = Vec::new();
    let mut i: usize = 0;
    assert(all.take(0) =~= Seq::<Seq<char>>::empty());
    assert(strs(out@) =~= Seq::<Seq<char>>::empty());
    while i < l.len()
        invariant
            i <= l@.len(),
            all == strs(l@),
            strs(out@) == sort_dedup(all.take(i as int)),
        decreases l.len() - i,
    {
        insert_sorted_exec(&mut out, l[i].clone());
        assert(all.take(i + 1).drop_last() =~= all.take(i as int));
        assert(all.take(i + 1).last() == l@[i as int]@);
        i = i + 1;
    }
    assert(all.take(l@.len() as int) =~= all);
    out
}

/// Drop later repeats of a list of strings, keeping the order.
pub fn dedup_keep_first_exec(l: &Vec<String>) -> (r: Vec<String>)
    ensures
        strs(r@) == dedup_keep_first(strs(l@)),
{
    let ghost all = strs(l@);
    let mut out: Vec<String> = Vec::new();
    let mut i: usize = 0;
    assert(all.take(0) =~= Seq::<Seq<char>>::empty());
    assert(strs(out@) =~= Seq::<Seq<char>>::empty());
    while i < l.len()
        invariant
            i <= l@.len(),
            all == strs(l@),
            strs(out@) == dedup_keep_first(all.take(i as int)),
        decreases l.len() - i,
    {
        let ghost d = strs(out@);
        let mut seen = false;
        let mut j: usize = 0;
        while j < out.len()
            invariant
                j <= out@.len(),
                i < l@.len(),
                d == strs(out@),
                seen <==> exists|k: int| 0 <= k < j && d[k] == l@[i as int]@,
            decreases out.len() - j,
        {
            if str_eq(out[j].as_str(), l[i].as_str()) {
                seen = true;
            }
            assert(d[j as int] == out@[j as int]@);
            j = j + 1;
        }
        assert(all.take(i + 1).drop_last() =~= all.take(i as int));
        assert(all.take(i + 1).last() == l@[i as int]@);
        assert(seen <==> d.contains(l@[i as int]@)) by {
            if d.contains(l@[i as int]@) {
                let k = choose|k: int| 0 <= k < d.len() && d[k] == l@[i as int]@;
                assert(0 <= k < j && d[k] == l@[i as int]@);
            }
        }
        if !seen {
            out.push(l[i].clone());
            assert(strs(out@) =~= d.push(l@[i as int]@));
        }
        i = i + 1;
    }
    assert(all.take(l@.len() as int) =~= all);
    out
}

} // verus!
