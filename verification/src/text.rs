//! Character-level string helpers shared by the parsers: whitespace,
//! trimming and blank checks, following the Unicode `White_Space` property
//! that `char::is_whitespace` and `str::trim` use.

use vstd::prelude::*;

verus! {

/// The Unicode `White_Space` property (the set that `char::is_whitespace` tests).
pub open spec fn is_white_space(c: char) -> bool {
    ||| ('\u{9}' <= c && c <= '\u{d}')
    ||| c == ' '
    ||| c == '\u{85}'
    ||| c == '\u{a0}'
    ||| c == '\u{1680}'
    ||| ('\u{2000}' <= c && c <= '\u{200a}')
    ||| c == '\u{2028}'
    ||| c == '\u{2029}'
    ||| c == '\u{202f}'
    ||| c == '\u{205f}'
    ||| c == '\u{3000}'
}

/// `s` without its leading whitespace.
pub open spec fn trim_start_seq(s: Seq<char>) -> Seq<char>
    decreases s.len(),
{
    if s.len() > 0 && is_white_space(s[0]) {
        trim_start_seq(s.drop_first())
    } else {
        s
    }
}

/// `s` without its trailing whitespace.
pub open spec fn trim_end_seq(s: Seq<char>) -> Seq<char>
    decreases s.len(),
{
    if s.len() > 0 && is_white_space(s.last()) {
        trim_end_seq(s.drop_last())
    } else {
        s
    }
}

/// `s` without leading and trailing whitespace (what `str::trim` gives).
pub open spec fn trim_seq(s: Seq<char>) -> Seq<char> {
    trim_end_seq(trim_start_seq(s))
}

/// Every character of `s` is whitespace (the empty text included).
pub open spec fn is_blank_seq(s: Seq<char>) -> bool {
    forall|i: int| 0 <= i < s.len() ==> is_white_space(#[trigger] s[i])
}

/// Whether `c` is whitespace in the sense of `char::is_whitespace`.
pub fn is_whitespace_char(c: char) -> (r: bool)
    ensures
        r == is_white_space(c),
{
    ('\u{9}' <= c && c <= '\u{d}') || c == ' ' || c == '\u{85}' || c == '\u{a0}' || c
        == '\u{1680}' || ('\u{2000}' <= c && c <= '\u{200a}') || c == '\u{2028}' || c
        == '\u{2029}' || c == '\u{202f}' || c == '\u{205f}' || c == '\u{3000}'
}

proof fn lemma_trim_start_skip(s: Seq<char>, i: int)
    requires
        0 <= i < s.len(),
        is_white_space(s[i]),
    ensures
        trim_start_seq(s.subrange(i, s.len() as int)) == trim_start_seq(
            s.subrange(i + 1, s.len() as int),
        ),
{
    assert(s.subrange(i, s.len() as int).drop_first() =~= s.subrange(i + 1, s.len() as int));
}

proof fn lemma_trim_end_skip(s: Seq<char>, j: int)
    requires
        0 < j <= s.len(),
        is_white_space(s[j - 1]),
    ensures
        trim_end_seq(s.subrange(0, j)) == trim_end_seq(s.subrange(0, j - 1)),
{
    assert(s.subrange(0, j).drop_last() =~= s.subrange(0, j - 1));
}

/// The whitespace-free prefix and suffix bounds of `s`: `trim_seq(s)` is the
/// characters from `start` up to `end`.
pub fn trim_bounds(s: &str) -> (r: (usize, usize))
    ensures
        r.0 <= r.1 <= s@.len(),
        s@.subrange(r.0 as int, r.1 as int) == trim_seq(s@),
{
    let len = s.unicode_len();
    let mut i: usize = 0;
    assert(s@.subrange(0, len as int) =~= s@);
    while i < len && is_whitespace_char(s.get_char(i))
        invariant
            i <= len,
            len == s@.len(),
            trim_start_seq(s@) == trim_start_seq(s@.subrange(i as int, len as int)),
        decreases len - i,
    {
        proof {
            lemma_trim_start_skip(s@, i as int);
        }
        i = i + 1;
    }
    let ghost rest = s@.subrange(i as int, len as int);
    assert(trim_start_seq(rest) == rest);
    let mut j: usize = len;
    assert(rest.subrange(0, (len - i) as int) =~= rest);
    while j > i && is_whitespace_char(s.get_char(j - 1))
        invariant
            i <= j <= len,
            len == s@.len(),
            rest == s@.subrange(i as int, len as int),
            trim_end_seq(rest) == trim_end_seq(rest.subrange(0, j - i)),
        decreases j,
    {
        proof {
            lemma_trim_end_skip(rest, (j - i) as int);
            assert(rest.subrange(0, (j - i) as int).subrange(0, (j - i - 1) as int) =~= rest.subrange(0, (j - 1 - i) as int));
        }
        j = j - 1;
    }
    proof {
        let t = rest.subrange(0, (j - i) as int);
        assert(trim_end_seq(t) == t);
        assert(t =~= s@.subrange(i as int, j as int));
    }
    (i, j)
}

/// `s` without leading and trailing whitespace, as `str::trim` gives it.
pub fn trim(s: &str) -> (r: String)
    ensures
        r@ == trim_seq(s@),
{
    let (i, j) = trim_bounds(s);
    String::from_str(s.substring_char(i, j))
}

/// Whether `s` holds only whitespace (or nothing).
pub fn is_blank(s: &str) -> (r: bool)
    ensures
        r == is_blank_seq(s@),
{
    let len = s.unicode_len();
    let mut i: usize = 0;
    while i < len
        invariant
            i <= len,
            len == s@.len(),
            forall|k: int| 0 <= k < i ==> is_white_space(#[trigger] s@[k]),
        decreases len - i,
    {
        if !is_whitespace_char(s.get_char(i)) {
            return false;
        }
        i = i + 1;
    }
    true
}

proof fn lemma_trim_end_last(s: Seq<char>)
    ensures
        trim_end_seq(s).len() == 0 || !is_white_space(trim_end_seq(s).last()),
    decreases s.len(),
{
    if s.len() > 0 && is_white_space(s.last()) {
        lemma_trim_end_last(s.drop_last());
    }
}

/// A trimmed text is blank only if it is empty.
pub proof fn lemma_trimmed_not_blank(s: Seq<char>)
    ensures
        is_blank_seq(trim_seq(s)) ==> trim_seq(s).len() == 0,
{
    lemma_trim_end_last(trim_start_seq(s));
    let t = trim_seq(s);
    if t.len() > 0 {
        assert(!is_white_space(t[t.len() - 1]));
    }
}

/// The texts of a list of strings.
pub open spec fn strings_view(v: Seq<String>) -> Seq<Seq<char>> {
    v.map_values(|x: String| x@)
}

/// The pieces of `s` between the occurrences of `c` (as `str::split` gives them;
/// there is always one piece more than there are occurrences).
pub open spec fn split_seq(s: Seq<char>, c: char) -> Seq<Seq<char>>
    decreases s.len(),
{
    if s.len() == 0 {
        seq![Seq::empty()]
    } else {
        let rest = split_seq(s.drop_last(), c);
        if s.last() == c {
            rest.push(Seq::empty())
        } else {
            rest.update(rest.len() - 1, rest.last().push(s.last()))
        }
    }
}

proof fn lemma_split_seq_nonempty(s: Seq<char>, c: char)
    ensures
        split_seq(s, c).len() >= 1,
    decreases s.len(),
{
    if s.len() > 0 {
        lemma_split_seq_nonempty(s.drop_last(), c);
    }
}

/// The pieces joined again, with `c` between each two of them.
pub open spec fn join_with(pieces: Seq<Seq<char>>, c: char) -> Seq<char>
    decreases pieces.len(),
{
    if pieces.len() == 0 {
        Seq::empty()
    } else if pieces.len() == 1 {
        pieces[0]
    } else {
        join_with(pieces.drop_last(), c).push(c) + pieces.last()
    }
}

proof fn lemma_join_extend_last(pieces: Seq<Seq<char>>, c: char, x: char)
    requires
        pieces.len() >= 1,
    ensures
        join_with(pieces.update(pieces.len() - 1, pieces.last().push(x)), c) == join_with(pieces, c).push(x),
{
    let q = pieces.update(pieces.len() - 1, pieces.last().push(x));
    if pieces.len() > 1 {
        assert(q.drop_last() =~= pieces.drop_last());
        assert(join_with(q, c) =~= join_with(pieces, c).push(x));
    }
}

/// Splitting cuts only at the occurrences of `c`: no piece holds `c`, and
/// joining the pieces with `c` between them gives back the text; there is
/// one piece more than there are occurrences of `c`.
pub proof fn law_split_cuts_only_at_separator(s: Seq<char>, c: char)
    ensures
        join_with(split_seq(s, c), c) == s,
        forall|i: int, k: int| 0 <= i < split_seq(s, c).len() && 0 <= k < split_seq(s, c)[i].len() ==> split_seq(s, c)[i][k] != c,
        split_seq(s, c).len() == s.filter(|x: char| x == c).len() + 1,
    decreases s.len(),
{
    reveal(Seq::filter);
    if s.len() == 0 {
        assert(s.filter(|x: char| x == c) =~= Seq::<char>::empty());
    } else {
        let rest = split_seq(s.drop_last(), c);
        law_split_cuts_only_at_separator(s.drop_last(), c);
        lemma_split_seq_nonempty(s.drop_last(), c);
        if s.last() == c {
            let p = rest.push(Seq::empty());
            assert(p.drop_last() =~= rest);
            assert(join_with(p, c) =~= join_with(rest, c).push(c));
            assert(s.drop_last().push(c) =~= s);
            assert forall|i: int, k: int| 0 <= i < p.len() && 0 <= k < p[i].len() implies p[i][k] != c by {
                assert(p[i] == rest[i]);
            }
        } else {
            lemma_join_extend_last(rest, c, s.last());
            assert(s.drop_last().push(s.last()) =~= s);
            let q = rest.update(rest.len() - 1, rest.last().push(s.last()));
            assert forall|i: int, k: int| 0 <= i < q.len() && 0 <= k < q[i].len() implies q[i][k] != c by {
                if i < rest.len() - 1 {
                    assert(q[i] == rest[i]);
                } else if k < rest.last().len() {
                    assert(q[i][k] == rest[i][k]);
                }
            }
        }
    }
}

/// The pieces of `s` between the occurrences of `c`.
pub fn split(s: &str, c: char) -> (r: Vec<String>)
    ensures
        strings_view(r@) == split_seq(s@, c),
{
    let len = s.unicode_len();
    let mut pieces: Vec<String> = Vec::new();
    let mut start: usize = 0;
    let mut i: usize = 0;
    assert(s@.subrange(0, 0) =~= Seq::<char>::empty());
    assert(strings_view(pieces@).push(s@.subrange(0, 0)) =~= split_seq(s@.subrange(0, 0), c));
    while i < len
        invariant
            start <= i <= len,
            len == s@.len(),
            strings_view(pieces@).push(s@.subrange(start as int, i as int)) == split_seq(
                s@.subrange(0, i as int),
                c,
            ),
        decreases len - i,
    {
        let ghost before = s@.subrange(0, i as int);
        let ghost after = s@.subrange(0, i + 1);
        assert(after.drop_last() =~= before);
        assert(after.last() == s@[i as int]);
        proof {
            lemma_split_seq_nonempty(before, c);
        }
        if s.get_char(i) == c {
            let piece = String::from_str(s.substring_char(start, i));
            let ghost old_pieces = pieces@;
            pieces.push(piece);
            assert(strings_view(pieces@) =~= strings_view(old_pieces).push(s@.subrange(start as int, i as int)));
            assert(split_seq(after, c) == split_seq(before, c).push(Seq::empty()));
            start = i + 1;
            assert(s@.subrange(start as int, i + 1) =~= Seq::<char>::empty());
            assert(strings_view(pieces@).push(s@.subrange(start as int, i + 1)) =~= split_seq(
                after,
                c,
            ));
        } else {
            assert(s@.subrange(start as int, i + 1) =~= s@.subrange(start as int, i as int).push(
                s@[i as int],
            ));
            assert(strings_view(pieces@).push(s@.subrange(start as int, i + 1)) =~= split_seq(
                after,
                c,
            ));
        }
        i = i + 1;
    }
    let last = String::from_str(s.substring_char(start, len));
    pieces.push(last);
    assert(s@.subrange(0, len as int) =~= s@);
    assert(strings_view(pieces@) =~= split_seq(s@, c));
    pieces
}

/// The index of the first occurrence of `c` in `s`, or -1 where there is none.
pub open spec fn first_index_of(s: Seq<char>, c: char) -> int
    decreases s.len(),
{
    if s.len() == 0 {
        -1
    } else if s[0] == c {
        0
    } else {
        let r = first_index_of(s.drop_first(), c);
        if r < 0 {
            -1
        } else {
            r + 1
        }
    }
}

/// `first_index_of` is the least index holding `c`, or -1 where none does.
pub proof fn lemma_first_index_of(s: Seq<char>, c: char)
    ensures
        -1 <= first_index_of(s, c) < s.len(),
        first_index_of(s, c) >= 0 ==> s[first_index_of(s, c)] == c,
        forall|k: int| 0 <= k < s.len() && (first_index_of(s, c) < 0 || k < first_index_of(s, c)) ==> s[k] != c,
    decreases s.len(),
{
    if s.len() > 0 && s[0] != c {
        lemma_first_index_of(s.drop_first(), c);
        assert forall|k: int| 0 <= k < s.len() && (first_index_of(s, c) < 0 || k < first_index_of(s, c)) implies s[k] != c by {
            if k > 0 {
                assert(s[k] == s.drop_first()[k - 1]);
            }
        }
    }
}

/// The index of the first occurrence of `c` in `s`, if any.
pub fn find_char(s: &str, c: char) -> (r: Option<usize>)
    ensures
        r is None <==> first_index_of(s@, c) < 0,
        r matches Some(i) ==> i == first_index_of(s@, c),
{
    proof {
        lemma_first_index_of(s@, c);
    }
    let len = s.unicode_len();
    let mut i: usize = 0;
    while i < len
        invariant
            i <= len,
            len == s@.len(),
            forall|k: int| 0 <= k < i ==> s@[k] != c,
            -1 <= first_index_of(s@, c) < s@.len(),
            first_index_of(s@, c) >= 0 ==> s@[first_index_of(s@, c)] == c,
            forall|k: int| 0 <= k < s@.len() && (first_index_of(s@, c) < 0 || k < first_index_of(s@, c)) ==> s@[k] != c,
        decreases len - i,
    {
        if s.get_char(i) == c {
            return Some(i);
        }
        i = i + 1;
    }
    None
}

/// `s` with every element after its first occurrence removed.
pub open spec fn dedup_seq<A>(s: Seq<A>) -> Seq<A>
    decreases s.len(),
{
    if s.len() == 0 {
        s
    } else {
        let d = dedup_seq(s.drop_last());
        if d.contains(s.last()) {
            d
        } else {
            d.push(s.last())
        }
    }
}

/// `dedup_seq(s)` holds exactly the elements of `s`.
pub proof fn lemma_dedup_contains<A>(s: Seq<A>)
    ensures
        forall|x: A| dedup_seq(s).contains(x) <==> s.contains(x),
    decreases s.len(),
{
    if s.len() > 0 {
        lemma_dedup_contains(s.drop_last());
        let d = dedup_seq(s.drop_last());
        assert forall|x: A| dedup_seq(s).contains(x) <==> s.contains(x) by {
            if s.contains(x) {
                let k = choose|k: int| 0 <= k < s.len() && s[k] == x;
                if k < s.len() - 1 {
                    assert(s.drop_last()[k] == x);
                    assert(s.drop_last().contains(x));
                    assert(d.contains(x));
                    if !d.contains(s.last()) {
                        let j = choose|j: int| 0 <= j < d.len() && d[j] == x;
                        assert(d.push(s.last())[j] == x);
                    }
                } else if !d.contains(s.last()) {
                    assert(d.push(s.last())[d.len() as int] == x);
                }
            }
            if dedup_seq(s).contains(x) {
                if d.contains(x) {
                    assert(s.drop_last().contains(x));
                    let k = choose|k: int| 0 <= k < s.drop_last().len() && s.drop_last()[k] == x;
                    assert(s[k] == x);
                } else {
                    let j = choose|j: int| 0 <= j < dedup_seq(s).len() && dedup_seq(s)[j] == x;
                    assert(j == d.len());
                    assert(s[s.len() - 1] == x);
                }
            }
        }
    }
}

/// No element occurs twice in `dedup_seq(s)`.
pub proof fn lemma_dedup_distinct<A>(s: Seq<A>)
    ensures
        forall|i: int, j: int| 0 <= i < j < dedup_seq(s).len() ==> dedup_seq(s)[i] != dedup_seq(s)[j],
    decreases s.len(),
{
    if s.len() > 0 {
        lemma_dedup_distinct(s.drop_last());
        let d = dedup_seq(s.drop_last());
        if !d.contains(s.last()) {
            assert forall|i: int, j: int| 0 <= i < j < dedup_seq(s).len() implies dedup_seq(s)[i] != dedup_seq(s)[j] by {
                if j == d.len() {
                    assert(dedup_seq(s)[i] == d[i]);
                } else {
                    assert(dedup_seq(s)[i] == d[i]);
                    assert(dedup_seq(s)[j] == d[j]);
                }
            }
        }
    }
}

/// The pieces trimmed, with those that are empty after trimming left out.
pub open spec fn trimmed_nonempty(pieces: Seq<Seq<char>>) -> Seq<Seq<char>>
    decreases pieces.len(),
{
    if pieces.len() == 0 {
        Seq::empty()
    } else {
        let rest = trimmed_nonempty(pieces.drop_last());
        let t = trim_seq(pieces.last());
        if t.len() > 0 {
            rest.push(t)
        } else {
            rest
        }
    }
}

/// The character of the decimal digit `d` (0 to 9).
pub open spec fn digit_char(d: nat) -> char {
    ((d + 48) as u32) as char
}

/// The decimal notation of `n`, without leading zeros.
pub open spec fn decimal_seq(n: nat) -> Seq<char>
    decreases n,
{
    if n < 10 {
        seq![digit_char(n)]
    } else {
        decimal_seq(n / 10).push(digit_char(n % 10))
    }
}

/// Appends `c` to `s` (`String::push`).
///
/// Trusted: afterwards `s` holds its former characters followed by `c`, as the
/// documentation of `String::push` states.
#[verifier::external_body]
pub(crate) fn push_char(s: &mut String, c: char)
    ensures
        final(s)@ == old(s)@.push(c),
{
    s.push(c);
}

/// Appends the decimal notation of `n` to `s`.
pub fn push_decimal(s: &mut String, n: u64)
    ensures
        final(s)@ == old(s)@ + decimal_seq(n as nat),
    decreases n,
{
    if n >= 10 {
        push_decimal(s, n / 10);
    }
    let d: u8 = (n % 10) as u8;
    let c: char = (d + 48) as char;
    assert(c == digit_char((n % 10) as nat));
    push_char(s, c);
    proof {
        if n < 10 {
            assert(decimal_seq(n as nat) =~= seq![digit_char(n as nat)]);
            assert(old(s)@.push(c) =~= old(s)@ + decimal_seq(n as nat));
        } else {
            assert(old(s)@ + decimal_seq(n as nat) =~= old(s)@ + decimal_seq((n / 10) as nat) + seq![c]);
        }
    }
}

/// The decimal notation of `n`, with a leading `-` where it is negative.
pub open spec fn signed_decimal_seq(n: int) -> Seq<char> {
    if n < 0 {
        seq!['-'] + decimal_seq((-n) as nat)
    } else {
        decimal_seq(n as nat)
    }
}

/// Appends the decimal notation of `n` (with its sign) to `s`.
pub fn push_signed_decimal(s: &mut String, n: i32)
    ensures
        final(s)@ == old(s)@ + signed_decimal_seq(n as int),
{
    if n < 0 {
        push_char(s, '-');
        let magnitude: i64 = -(n as i64);
        push_decimal(s, magnitude as u64);
        assert(s@ =~= old(s)@ + signed_decimal_seq(n as int));
    } else {
        push_decimal(s, n as u64);
    }
}

/// What `str::to_lowercase` gives for a text.
pub uninterp spec fn lowercase(s: Seq<char>) -> Seq<char>;

/// `c` with `A` to `Z` turned into `a` to `z`.
pub open spec fn ascii_lower(c: char) -> char {
    if 'A' <= c && c <= 'Z' {
        ((c as u32) + 32) as char
    } else {
        c
    }
}

/// The lowercase equivalent of `s`, by `str::to_lowercase`.
///
/// Trusted: the result is the named `lowercase` of `s`; for a text of ASCII
/// characters only, as the documentation of `to_lowercase` and of ASCII case
/// mapping states, each character is mapped on its own with `A`-`Z` going to
/// `a`-`z`; and since every character maps to one or more characters (as the
/// documentation states), a text that is not empty stays not empty. Case
/// mapping outside ASCII is not stated further.
#[verifier::external_body]
pub(crate) fn to_lowercase(s: &str) -> (r: String)
    ensures
        r@ == lowercase(s@),
        s@.len() > 0 ==> r@.len() > 0,
        (forall|i: int| 0 <= i < s@.len() ==> (s@[i] as u32) < 128) ==> r@ == s@.map_values(|c: char| ascii_lower(c)),
{
    s.to_lowercase()
}

} // verus!
