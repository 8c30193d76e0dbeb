//! The string helpers. Lengths and positions count characters, not bytes.

use vstd::prelude::*;

verus! {

/// The views of a list of strings.
pub open spec fn texts(v: Seq<String>) -> Seq<Seq<char>> {
    Seq::new(v.len(), |i: int| v[i]@)
}

/// Decides whether two strings hold the same characters.
pub fn same_text(a: &str, b: &str) -> (r: bool)
    ensures
        r == (a@ == b@),
{
    let x = String::from_str(a);
    let y = String::from_str(b);
    x == y
}

/// `s` cut down to its first `limit` characters; unchanged when it has no more.
pub open spec fn truncated(s: Seq<char>, limit: nat) -> Seq<char> {
    if limit < s.len() {
        s.take(limit as int)
    } else {
        s
    }
}

/// Truncates `s` to at most `limit` characters.
pub fn trunc(limit: usize, s: &str) -> (r: String)
    ensures
        r@ == truncated(s@, limit as nat),
{
    let n = s.unicode_len();
    if limit < n {
        String::from_str(s.substring_char(0, limit))
    } else {
        String::from_str(s)
    }
}

/// The marker that stands for what an abbreviation left out.
pub open spec fn ellipsis() -> Seq<char> {
    seq!['.', '.', '.']
}

/// `s` abbreviated to at most `limit` characters. A limit of three or less
/// leaves no room for the marker and only truncates; a string within the
/// limit is unchanged; a longer one keeps its first `limit - 3` characters,
/// followed by the marker.
pub open spec fn abbreviated(s: Seq<char>, limit: nat) -> Seq<char> {
    if limit <= 3 {
        truncated(s, limit)
    } else if s.len() <= limit {
        s
    } else {
        s.take(limit - 3) + ellipsis()
    }
}

/// Abbreviates `s` to at most `limit` characters.
pub fn abbrev(limit: usize, s: &str) -> (r: String)
    ensures
        r@ == abbreviated(s@, limit as nat),
{
    if limit <= 3 {
        trunc(limit, s)
    } else if s.unicode_len() <= limit {
        String::from_str(s)
    } else {
        let mut out = String::from_str(s.substring_char(0, limit - 3));
        proof {
            reveal_strlit("...");
            assert("..."@ =~= ellipsis());
        }
        out.append("...");
        out
    }
}

/// An abbreviation is never longer than its limit.
pub proof fn abbreviated_within_limit(s: Seq<char>, limit: nat)
    ensures
        abbreviated(s, limit).len() <= limit,
        s.len() <= limit ==> abbreviated(s, limit) == s,
        limit > 3 && s.len() > limit ==> abbreviated(s, limit).len() == limit && abbreviated(
            s,
            limit,
        ).skip(limit - 3) == ellipsis(),
        limit <= 3 && s.len() > limit ==> abbreviated(s, limit) == s.take(limit as int),
{
    if limit > 3 && s.len() > limit {
        assert(abbreviated(s, limit).skip(limit - 3) =~= ellipsis());
    }
}

/// The singular form for a count of one, the plural form for any other.
pub fn plural(count: usize, one: &str, many: &str) -> (r: String)
    ensures
        r@ == (if count == 1 {
            one@
        } else {
            many@
        }),
{
    if count == 1 {
        String::from_str(one)
    } else {
        String::from_str(many)
    }
}

/// Whether `s` ends with `suffix`.
pub open spec fn ends_with(s: Seq<char>, suffix: Seq<char>) -> bool {
    suffix.len() <= s.len() && s.skip(s.len() - suffix.len()) == suffix
}

/// Whether `s` starts with `prefix`.
pub open spec fn starts_with(s: Seq<char>, prefix: Seq<char>) -> bool {
    prefix.len() <= s.len() && s.take(prefix.len() as int) == prefix
}

/// `s` without one trailing occurrence of `suffix`, if it ends with one.
pub open spec fn without_suffix(s: Seq<char>, suffix: Seq<char>) -> Seq<char> {
    if ends_with(s, suffix) {
        s.take(s.len() - suffix.len())
    } else {
        s
    }
}

/// `s` without one leading occurrence of `prefix`, if it starts with one.
pub open spec fn without_prefix(s: Seq<char>, prefix: Seq<char>) -> Seq<char> {
    if starts_with(s, prefix) {
        s.skip(prefix.len() as int)
    } else {
        s
    }
}

/// Removes `suffix` from the end of `input` when `input` ends with exactly
/// those characters.
pub fn trim_suffix(suffix: &str, input: &str) -> (r: String)
    ensures
        r@ == without_suffix(input@, suffix@),
{
    let n = input.unicode_len();
    let m = suffix.unicode_len();
    if m <= n && same_text(input.substring_char(n - m, n), suffix) {
        String::from_str(input.substring_char(0, n - m))
    } else {
        String::from_str(input)
    }
}

/// Removes `prefix` from the start of `input` when `input` starts with
/// exactly those characters.
pub fn trim_prefix(prefix: &str, input: &str) -> (r: String)
    ensures
        r@ == without_prefix(input@, prefix@),
{
    let n = input.unicode_len();
    let m = prefix.unicode_len();
    if m <= n && same_text(input.substring_char(0, m), prefix) {
        String::from_str(input.substring_char(m, n))
    } else {
        String::from_str(input)
    }
}

/// Removes `substr` once from the end of `input` and then once from the
/// start of what is left.
pub fn trim_all(substr: &str, input: &str) -> (r: String)
    ensures
        r@ == without_prefix(without_suffix(input@, substr@), substr@),
{
    let first = trim_suffix(substr, input);
    trim_prefix(substr, first.as_str())
}

/// The parts written one after another with `sep` between each two.
pub open spec fn joined(parts: Seq<Seq<char>>, sep: Seq<char>) -> Seq<char>
    decreases parts.len(),
{
    if parts.len() == 0 {
        Seq::empty()
    } else if parts.len() == 1 {
        parts[0]
    } else {
        joined(parts.drop_last(), sep) + sep + parts.last()
    }
}

/// Joins `elements` with `delimiter` between each two of them.
pub fn join(delimiter: &str, elements: &Vec<String>) -> (r: String)
    ensures
        r@ == joined(texts(elements@), delimiter@),
{
    let mut out = String::new();
    let mut i: usize = 0;
    while i < elements.len()
        invariant
            i <= elements.len(),
            out@ == joined(texts(elements@).take(i as int), delimiter@),
        decreases elements.len() - i,
    {
        let ghost before = texts(elements@).take(i as int);
        let ghost after = texts(elements@).take(i + 1);
        proof {
            assert(after.drop_last() =~= before);
            assert(after.last() == elements@[i as int]@);
        }
        if i > 0 {
            out.append(delimiter);
        }
        out.append(elements[i].as_str());
        proof {
            if i == 0 {
                assert(out@ =~= after[0]);
            }
        }
        i += 1;
    }
    proof {
        assert(texts(elements@).take(i as int) =~= texts(elements@));
    }
    out
}

/// The characters of `s`, in order.
pub fn chars_of(s: &str) -> (v: Vec<char>)
    ensures
        v@ == s@,
{
    let mut v: Vec<char> = Vec::new();
    for c in it: s.chars()
        invariant
            v@ == it.seq().take(it.index@),
    {
        v.push(c);
    }
    v
}

/// The upper-case form of a string, as the standard library computes it.
pub uninterp spec fn uppercased(s: Seq<char>) -> Seq<char>;

/// The lower-case form of a string, as the standard library computes it.
pub uninterp spec fn lowercased(s: Seq<char>) -> Seq<char>;

/// Whether a character is white space, as the standard library decides it.
pub uninterp spec fn is_whitespace(c: char) -> bool;

/// Calls `str::to_uppercase`. The contract only gives the result its name:
/// the upper-case form is a function of the characters alone.
#[verifier::external_body]
pub(crate) fn to_upper(s: &str) -> (r: String)
    ensures
        r@ == uppercased(s@),
{
    s.to_uppercase()
}

/// Calls `str::to_lowercase`. The contract only gives the result its name:
/// the lower-case form is a function of the characters alone.
#[verifier::external_body]
pub(crate) fn to_lower(s: &str) -> (r: String)
    ensures
        r@ == lowercased(s@),
{
    s.to_lowercase()
}

/// Calls `char::is_whitespace`. The contract only gives the answer its name:
/// it depends on the character alone.
#[verifier::external_body]
fn whitespace(c: char) -> (r: bool)
    ensures
        r == is_whitespace(c),
{
    c.is_whitespace()
}

/// How many characters of white space `s` starts with.
pub open spec fn leading_whitespace(s: Seq<char>) -> nat
    decreases s.len(),
{
    if s.len() > 0 && is_whitespace(s.first()) {
        1 + leading_whitespace(s.drop_first())
    } else {
        0
    }
}

/// How many characters of white space `s` ends with.
pub open spec fn trailing_whitespace(s: Seq<char>) -> nat
    decreases s.len(),
{
    if s.len() > 0 && is_whitespace(s.last()) {
        1 + trailing_whitespace(s.drop_last())
    } else {
        0
    }
}

/// `s` without its leading and trailing white space.
pub open spec fn trimmed(s: Seq<char>) -> Seq<char> {
    let rest = s.skip(leading_whitespace(s) as int);
    rest.take(rest.len() - trailing_whitespace(rest))
}

proof fn leading_whitespace_is(s: Seq<char>, k: int)
    requires
        0 <= k <= s.len(),
        forall|i: int| 0 <= i < k ==> is_whitespace(s[i]),
        k == s.len() || !is_whitespace(s[k]),
    ensures
        leading_whitespace(s) == k,
    decreases k,
{
    if k > 0 {
        let rest = s.drop_first();
        assert forall|i: int| 0 <= i < k - 1 implies is_whitespace(rest[i]) by {
            assert(rest[i] == s[i + 1]);
        }
        if k < s.len() {
            assert(rest[k - 1] == s[k]);
        }
        leading_whitespace_is(rest, k - 1);
    }
}

proof fn trailing_whitespace_is(s: Seq<char>, k: int)
    requires
        0 <= k <= s.len(),
        forall|i: int| s.len() - k <= i < s.len() ==> is_whitespace(s[i]),
        k == s.len() || !is_whitespace(s[s.len() - k - 1]),
    ensures
        trailing_whitespace(s) == k,
    decreases k,
{
    if k > 0 {
        let rest = s.drop_last();
        assert forall|i: int| rest.len() - (k - 1) <= i < rest.len() implies is_whitespace(
            rest[i],
        ) by {
            assert(rest[i] == s[i]);
        }
        if k < s.len() {
            assert(rest[rest.len() - (k - 1) - 1] == s[s.len() - k - 1]);
        }
        trailing_whitespace_is(rest, k - 1);
    }
}

/// Removes the white space at both ends of `s`.
pub fn trim(s: &str) -> (r: String)
    ensures
        r@ == trimmed(s@),
{
    let chars = chars_of(s);
    let n = chars.len();
    let mut lo: usize = 0;
    while lo < n && whitespace(chars[lo])
        invariant
            lo <= n,
            n == chars@.len(),
            forall|i: int| 0 <= i < lo ==> is_whitespace(chars@[i]),
        decreases n - lo,
    {
        lo += 1;
    }
    let mut hi: usize = n;
    while hi > lo && whitespace(chars[hi - 1])
        invariant
            lo <= hi <= n,
            n == chars@.len(),
            forall|i: int| hi <= i < n ==> is_whitespace(chars@[i]),
        decreases hi,
    {
        hi -= 1;
    }
    proof {
        let rest = s@.skip(lo as int);
        leading_whitespace_is(s@, lo as int);
        assert forall|i: int| rest.len() - (n - hi) <= i < rest.len() implies is_whitespace(
            rest[i],
        ) by {
            assert(rest[i] == s@[i + lo]);
        }
        if hi > lo {
            assert(rest[rest.len() - (n - hi) - 1] == s@[hi - 1]);
        }
        trailing_whitespace_is(rest, n - hi);
        assert(s@.subrange(lo as int, hi as int) =~= rest.take(rest.len() - (n - hi)));
    }
    String::from_str(s.substring_char(lo, hi))
}

/// Whether `pat` stands in `s` at position `k`.
pub open spec fn occurs_at(s: Seq<char>, pat: Seq<char>, k: int) -> bool {
    0 <= k && k + pat.len() <= s.len() && s.subrange(k, k + pat.len()) == pat
}

/// The first position at or after `from` where `pat` stands in `s`.
pub open spec fn first_occurrence(s: Seq<char>, pat: Seq<char>, from: int) -> Option<int>
    decreases s.len() - from + 1,
{
    if from < 0 || from + pat.len() > s.len() {
        None
    } else if occurs_at(s, pat, from) {
        Some(from)
    } else {
        first_occurrence(s, pat, from + 1)
    }
}

/// A first occurrence lies at or after the start of the search, and the
/// pattern stands there.
pub proof fn first_occurrence_bounds(s: Seq<char>, pat: Seq<char>, from: int)
    ensures
        first_occurrence(s, pat, from) matches Some(k) ==> from <= k && occurs_at(s, pat, k),
    decreases s.len() - from + 1,
{
    if !(from < 0 || from + pat.len() > s.len()) && !occurs_at(s, pat, from) {
        first_occurrence_bounds(s, pat, from + 1);
    }
}

/// Finds the first position at or after `from` where `pat` stands in `s`.
pub fn find(s: &str, pat: &str, from: usize) -> (r: Option<usize>)
    ensures
        match r {
            Some(k) => first_occurrence(s@, pat@, from as int) == Some(k as int),
            None => first_occurrence(s@, pat@, from as int) is None,
        },
{
    let n = s.unicode_len();
    let m = pat.unicode_len();
    if m > n || from > n - m {
        return None;
    }
    let last = n - m;
    let mut k: usize = from;
    loop
        invariant
            from <= k <= last,
            last == n - m,
            n == s@.len(),
            m == pat@.len(),
            first_occurrence(s@, pat@, from as int) == first_occurrence(s@, pat@, k as int),
        decreases last - k,
    {
        if same_text(s.substring_char(k, k + m), pat) {
            return Some(k);
        }
        if k == last {
            assert(first_occurrence(s@, pat@, k + 1) is None);
            return None;
        }
        k += 1;
    }
}

/// The pieces of `s` from `start` on, cut at each occurrence of the
/// non-empty pattern `pat`, searching from left to right.
pub open spec fn pieces_from(s: Seq<char>, pat: Seq<char>, start: int) -> Seq<Seq<char>>
    decreases s.len() - start,
    when pat.len() > 0 && 0 <= start <= s.len()
    via pieces_from_decreases
{
    match first_occurrence(s, pat, start) {
        None => seq![s.skip(start)],
        Some(k) => seq![s.subrange(start, k)] + pieces_from(s, pat, k + pat.len()),
    }
}

#[via_fn]
proof fn pieces_from_decreases(s: Seq<char>, pat: Seq<char>, start: int) {
    first_occurrence_bounds(s, pat, start);
}

/// As `pieces_from`, but with at most `limit` pieces: the last one holds all
/// that is left.
pub open spec fn limited_pieces_from(
    s: Seq<char>,
    pat: Seq<char>,
    start: int,
    limit: nat,
) -> Seq<Seq<char>>
    decreases limit,
{
    if limit == 0 {
        Seq::empty()
    } else if limit == 1 {
        seq![s.skip(start)]
    } else {
        match first_occurrence(s, pat, start) {
            None => seq![s.skip(start)],
            Some(k) => seq![s.subrange(start, k)] + limited_pieces_from(
                s,
                pat,
                k + pat.len(),
                (limit - 1) as nat,
            ),
        }
    }
}

/// Each character of `s` as a string of its own.
pub open spec fn singletons(s: Seq<char>) -> Seq<Seq<char>> {
    Seq::new(s.len(), |i: int| seq![s[i]])
}

/// The pieces of `s` between the occurrences of `pat`. The empty pattern
/// stands before and after every character, so it gives an empty piece, then
/// each character, then an empty piece.
pub open spec fn split_pieces(s: Seq<char>, pat: Seq<char>) -> Seq<Seq<char>> {
    if pat.len() == 0 {
        seq![Seq::<char>::empty()] + singletons(s) + seq![Seq::<char>::empty()]
    } else {
        pieces_from(s, pat, 0)
    }
}

/// The first `limit` pieces of `s` between the occurrences of `pat`, the
/// last of them holding all that is left.
pub open spec fn splitn_pieces(s: Seq<char>, pat: Seq<char>, limit: nat) -> Seq<Seq<char>> {
    if limit == 0 {
        Seq::empty()
    } else if limit == 1 {
        seq![s]
    } else if pat.len() == 0 {
        let m = if limit - 2 < s.len() {
            limit - 2
        } else {
            s.len() as int
        };
        seq![Seq::<char>::empty()] + singletons(s.take(m)) + seq![s.skip(m)]
    } else {
        limited_pieces_from(s, pat, 0, limit)
    }
}

proof fn joined_after_first(first: Seq<char>, rest: Seq<Seq<char>>, sep: Seq<char>)
    requires
        rest.len() > 0,
    ensures
        joined(seq![first] + rest, sep) == first + sep + joined(rest, sep),
    decreases rest.len(),
{
    let all = seq![first] + rest;
    if rest.len() == 1 {
        assert(all.drop_last() =~= seq![first]);
        assert(joined(seq![first], sep) == first);
        assert(all.last() == rest[0]);
        assert(joined(rest, sep) == rest[0]);
        assert(joined(all, sep) =~= first + sep + rest[0]);
    } else {
        assert(all.drop_last() =~= seq![first] + rest.drop_last());
        joined_after_first(first, rest.drop_last(), sep);
        assert(joined(all, sep) =~= first + sep + joined(rest, sep));
    }
}

proof fn pieces_join(s: Seq<char>, pat: Seq<char>, start: int)
    requires
        pat.len() > 0,
        0 <= start <= s.len(),
    ensures
        pieces_from(s, pat, start).len() > 0,
        joined(pieces_from(s, pat, start), pat) == s.skip(start),
    decreases s.len() - start,
{
    first_occurrence_bounds(s, pat, start);
    match first_occurrence(s, pat, start) {
        None => {},
        Some(k) => {
            let rest = pieces_from(s, pat, k + pat.len());
            pieces_join(s, pat, k + pat.len());
            joined_after_first(s.subrange(start, k), rest, pat);
            assert(s.subrange(start, k) + s.subrange(k, k + pat.len()) + s.skip(k + pat.len())
                =~= s.skip(start));
        },
    }
}

proof fn singletons_join(t: Seq<char>)
    ensures
        joined(singletons(t) + seq![Seq::<char>::empty()], Seq::empty()) == t,
    decreases t.len(),
{
    let all = singletons(t) + seq![Seq::<char>::empty()];
    if t.len() == 0 {
        assert(joined(all, Seq::empty()) =~= t);
    } else {
        let rest = singletons(t.drop_first()) + seq![Seq::<char>::empty()];
        assert(all =~= seq![seq![t[0]]] + rest);
        singletons_join(t.drop_first());
        joined_after_first(seq![t[0]], rest, Seq::empty());
        assert(seq![t[0]] + Seq::<char>::empty() + t.drop_first() =~= t);
    }
}

/// Joining the pieces of a split with the delimiter that cut them gives the
/// string back.
pub proof fn join_undoes_split(s: Seq<char>, pat: Seq<char>)
    ensures
        joined(split_pieces(s, pat), pat) == s,
{
    if pat.len() == 0 {
        let rest = singletons(s) + seq![Seq::<char>::empty()];
        assert(split_pieces(s, pat) =~= seq![Seq::<char>::empty()] + rest);
        singletons_join(s);
        joined_after_first(Seq::empty(), rest, pat);
        assert(pat =~= Seq::<char>::empty());
        assert(Seq::<char>::empty() + pat + s =~= s);
    } else {
        pieces_join(s, pat, 0);
        assert(s.skip(0) =~= s);
    }
}

/// The pieces for the empty pattern: an empty piece, the first `m` characters
/// one by one, and what is left.
fn split_chars(input: &str, m: usize) -> (r: Vec<String>)
    requires
        m <= input@.len(),
    ensures
        texts(r@) == seq![Seq::<char>::empty()] + singletons(input@.take(m as int)) + seq![
            input@.skip(m as int),
        ],
{
    let n = input.unicode_len();
    let mut out: Vec<String> = Vec::new();
    out.push(String::new());
    let mut i: usize = 0;
    while i < m
        invariant
            i <= m <= n,
            n == input@.len(),
            texts(out@) == seq![Seq::<char>::empty()] + singletons(input@.take(i as int)),
        decreases m - i,
    {
        let ghost before = texts(out@);
        out.push(String::from_str(input.substring_char(i, i + 1)));
        proof {
            assert(input@.subrange(i as int, i + 1) =~= seq![input@[i as int]]);
            assert(texts(out@) =~= before.push(seq![input@[i as int]]));
            assert(texts(out@) =~= seq![Seq::<char>::empty()] + singletons(input@.take(i + 1)));
        }
        i += 1;
    }
    let ghost before = texts(out@);
    out.push(String::from_str(input.substring_char(m, n)));
    proof {
        assert(input@.subrange(m as int, n as int) =~= input@.skip(m as int));
        assert(texts(out@) =~= before.push(input@.skip(m as int)));
        assert(texts(out@) =~= seq![Seq::<char>::empty()] + singletons(input@.take(m as int))
            + seq![input@.skip(m as int)]);
    }
    out
}

/// Splits `input` at each occurrence of `delimiter`.
pub fn split(delimiter: &str, input: &str) -> (r: Vec<String>)
    ensures
        texts(r@) == split_pieces(input@, delimiter@),
{
    let n = input.unicode_len();
    let m = delimiter.unicode_len();
    if m == 0 {
        proof {
            assert(input@.take(n as int) =~= input@);
            assert(input@.skip(n as int) =~= Seq::<char>::empty());
        }
        return split_chars(input, n);
    }
    let mut out: Vec<String> = Vec::new();
    let mut start: usize = 0;
    let mut done = false;
    while !done
        invariant
            start <= n,
            n == input@.len(),
            m == delimiter@.len(),
            m > 0,
            !done ==> split_pieces(input@, delimiter@) == texts(out@) + pieces_from(
                input@,
                delimiter@,
                start as int,
            ),
            done ==> split_pieces(input@, delimiter@) == texts(out@),
        decreases n - start + (if done { 0int } else { 1int }),
    {
        let ghost before = texts(out@);
        let found = find(input, delimiter, start);
        proof {
            first_occurrence_bounds(input@, delimiter@, start as int);
        }
        match found {
            Some(k) => {
                out.push(String::from_str(input.substring_char(start, k)));
                proof {
                    assert(texts(out@) =~= before.push(input@.subrange(start as int, k as int)));
                    assert(split_pieces(input@, delimiter@) =~= texts(out@) + pieces_from(
                        input@,
                        delimiter@,
                        k + m,
                    ));
                }
                start = k + m;
            },
            None => {
                out.push(String::from_str(input.substring_char(start, n)));
                proof {
                    assert(input@.subrange(start as int, n as int) =~= input@.skip(start as int));
                    assert(texts(out@) =~= before.push(input@.skip(start as int)));
                    assert(split_pieces(input@, delimiter@) =~= texts(out@));
                }
                done = true;
            },
        }
    }
    out
}

/// Splits `input` at the occurrences of `delimiter` into at most `count`
/// pieces; the last piece holds the rest of the input.
pub fn splitn(delimiter: &str, count: usize, input: &str) -> (r: Vec<String>)
    ensures
        texts(r@) == splitn_pieces(input@, delimiter@, count as nat),
{
    let n = input.unicode_len();
    let m = delimiter.unicode_len();
    let mut out: Vec<String> = Vec::new();
    if count == 0 {
        assert(texts(out@) =~= Seq::<Seq<char>>::empty());
        return out;
    }
    if count == 1 {
        out.push(String::from_str(input));
        assert(texts(out@) =~= seq![input@]);
        return out;
    }
    if m == 0 {
        let singles = if count - 2 < n {
            count - 2
        } else {
            n
        };
        return split_chars(input, singles);
    }
    let mut start: usize = 0;
    let mut left: usize = count;
    while left > 0
        invariant
            start <= n,
            n == input@.len(),
            m == delimiter@.len(),
            m > 0,
            splitn_pieces(input@, delimiter@, count as nat) == texts(out@) + limited_pieces_from(
                input@,
                delimiter@,
                start as int,
                left as nat,
            ),
        decreases left,
    {
        let ghost before = texts(out@);
        if left == 1 {
            out.push(String::from_str(input.substring_char(start, n)));
            proof {
                assert(input@.subrange(start as int, n as int) =~= input@.skip(start as int));
                assert(texts(out@) =~= before.push(input@.skip(start as int)));
                assert(splitn_pieces(input@, delimiter@, count as nat) =~= texts(out@)
                    + Seq::<Seq<char>>::empty());
            }
            left = 0;
        } else {
            let found = find(input, delimiter, start);
            proof {
                first_occurrence_bounds(input@, delimiter@, start as int);
            }
            match found {
                Some(k) => {
                    out.push(String::from_str(input.substring_char(start, k)));
                    proof {
                        assert(texts(out@) =~= before.push(
                            input@.subrange(start as int, k as int),
                        ));
                        assert(splitn_pieces(input@, delimiter@, count as nat) =~= texts(out@)
                            + limited_pieces_from(input@, delimiter@, k + m, (left - 1) as nat));
                    }
                    start = k + m;
                    left -= 1;
                },
                None => {
                    out.push(String::from_str(input.substring_char(start, n)));
                    proof {
                        assert(input@.subrange(start as int, n as int) =~= input@.skip(
                            start as int,
                        ));
                        assert(texts(out@) =~= before.push(input@.skip(start as int)));
                        assert(splitn_pieces(input@, delimiter@, count as nat) =~= texts(out@)
                            + Seq::<Seq<char>>::empty());
                    }
                    left = 0;
                },
            }
        }
    }
    proof {
        assert(texts(out@) + Seq::<Seq<char>>::empty() =~= texts(out@));
    }
    out
}

/// The lexical order of strings: the first character that differs decides,
/// by its code point, and a string that is a prefix of another comes first.
pub open spec fn lex_le(a: Seq<char>, b: Seq<char>) -> bool
    decreases a.len(),
{
    if a.len() == 0 {
        true
    } else if b.len() == 0 {
        false
    } else if a.first() != b.first() {
        (a.first() as int) < (b.first() as int)
    } else {
        lex_le(a.drop_first(), b.drop_first())
    }
}

/// Of two strings, one comes before the other or they are equal.
pub proof fn lex_le_total(a: Seq<char>, b: Seq<char>)
    ensures
        lex_le(a, b) || lex_le(b, a),
    decreases a.len(),
{
    if a.len() > 0 && b.len() > 0 && a.first() == b.first() {
        lex_le_total(a.drop_first(), b.drop_first());
    }
}

/// The lexical order is transitive.
pub proof fn lex_le_transitive(a: Seq<char>, b: Seq<char>, c: Seq<char>)
    requires
        lex_le(a, b),
        lex_le(b, c),
    ensures
        lex_le(a, c),
    decreases a.len(),
{
    if a.len() > 0 && b.len() > 0 && c.len() > 0 && a.first() == b.first() && b.first()
        == c.first() {
        lex_le_transitive(a.drop_first(), b.drop_first(), c.drop_first());
    }
}

/// Two strings that come before each other are the same string.
pub proof fn lex_le_antisymmetric(a: Seq<char>, b: Seq<char>)
    requires
        lex_le(a, b),
        lex_le(b, a),
    ensures
        a == b,
    decreases a.len(),
{
    if a.len() > 0 && b.len() > 0 {
        assert(a.first() == b.first());
        lex_le_antisymmetric(a.drop_first(), b.drop_first());
        assert(a =~= seq![a.first()] + a.drop_first());
        assert(b =~= seq![b.first()] + b.drop_first());
    } else {
        assert(a =~= b);
    }
}

/// Whether the strings stand in lexical order.
pub open spec fn sorted(v: Seq<Seq<char>>) -> bool {
    forall|i: int, j: int| 0 <= i < j < v.len() ==> lex_le(v[i], v[j])
}

/// There is one way to put strings in lexical order: two sorted lists of
/// the same strings are the same list.
pub proof fn sorted_is_unique(a: Seq<Seq<char>>, b: Seq<Seq<char>>)
    requires
        sorted(a),
        sorted(b),
        a.to_multiset() == b.to_multiset(),
    ensures
        a == b,
    decreases a.len(),
{
    a.to_multiset_ensures();
    b.to_multiset_ensures();
    assert(a.len() == b.len());
    if a.len() == 0 {
        assert(a =~= b);
    } else {
        assert(b.contains(b[0]));
        assert(b.to_multiset().count(b[0]) > 0);
        assert(a.to_multiset().count(b[0]) > 0);
        assert(a.contains(b[0]));
        let i = choose|i: int| 0 <= i < a.len() && a[i] == b[0];
        if i > 0 {
            assert(lex_le(a[0], a[i]));
        } else {
            lex_le_total(a[0], a[0]);
        }
        assert(a.contains(a[0]));
        assert(a.to_multiset().count(a[0]) > 0);
        assert(b.to_multiset().count(a[0]) > 0);
        assert(b.contains(a[0]));
        let j = choose|j: int| 0 <= j < b.len() && b[j] == a[0];
        if j > 0 {
            assert(lex_le(b[0], b[j]));
        } else {
            lex_le_total(b[0], b[0]);
        }
        lex_le_antisymmetric(a[0], b[0]);
        assert(a.drop_first() =~= a.remove(0));
        assert(b.drop_first() =~= b.remove(0));
        vstd::seq_lib::to_multiset_remove(a, 0);
        vstd::seq_lib::to_multiset_remove(b, 0);
        assert forall|x: int, y: int| 0 <= x < y < a.drop_first().len() implies lex_le(
            a.drop_first()[x],
            a.drop_first()[y],
        ) by {
            assert(lex_le(a[x + 1], a[y + 1]));
        }
        assert forall|x: int, y: int| 0 <= x < y < b.drop_first().len() implies lex_le(
            b.drop_first()[x],
            b.drop_first()[y],
        ) by {
            assert(lex_le(b[x + 1], b[y + 1]));
        }
        sorted_is_unique(a.drop_first(), b.drop_first());
        assert(a =~= seq![a[0]] + a.drop_first());
        assert(b =~= seq![b[0]] + b.drop_first());
    }
}

/// Decides whether `a` comes before `b` in lexical order, or equals it.
pub fn text_le(a: &Vec<char>, b: &Vec<char>) -> (r: bool)
    ensures
        r == lex_le(a@, b@),
{
    let mut i: usize = 0;
    proof {
        assert(a@.skip(0) =~= a@);
        assert(b@.skip(0) =~= b@);
    }
    while i < a.len() && i < b.len()
        invariant
            i <= a.len(),
            i <= b.len(),
            lex_le(a@, b@) == lex_le(a@.skip(i as int), b@.skip(i as int)),
        decreases a.len() - i,
    {
        let x = a[i];
        let y = b[i];
        proof {
            assert(a@.skip(i as int).first() == x);
            assert(b@.skip(i as int).first() == y);
            assert(a@.skip(i as int).drop_first() =~= a@.skip(i + 1));
            assert(b@.skip(i as int).drop_first() =~= b@.skip(i + 1));
        }
        if x != y {
            return x < y;
        }
        i += 1;
    }
    a.len() <= b.len()
}

/// Sorts the strings into lexical order.
pub fn sort_alpha(input: &Vec<String>) -> (r: Vec<String>)
    ensures
        sorted(texts(r@)),
        texts(r@).to_multiset() == texts(input@).to_multiset(),
{
    let mut out: Vec<String> = Vec::new();
    let mut keys: Vec<Vec<char>> = Vec::new();
    let mut i: usize = 0;
    assert(texts(input@).take(0) =~= texts(out@));
    while i < input.len()
        invariant
            i <= input.len(),
            keys@.len() == out@.len(),
            forall|k: int| 0 <= k < out@.len() ==> keys@[k]@ == out@[k]@,
            sorted(texts(out@)),
            texts(out@).to_multiset() == texts(input@).take(i as int).to_multiset(),
        decreases input.len() - i,
    {
        let item = input[i].clone();
        let key = chars_of(item.as_str());
        let ghost before = texts(out@);
        let mut p: usize = 0;
        while p < keys.len() && text_le(&keys[p], &key)
            invariant
                p <= keys@.len(),
                keys@.len() == out@.len(),
                before == texts(out@),
                forall|k: int| 0 <= k < out@.len() ==> keys@[k]@ == out@[k]@,
                forall|q: int| 0 <= q < p ==> lex_le(before[q], key@),
            decreases keys@.len() - p,
        {
            p += 1;
        }
        let ghost after = before.insert(p as int, key@);
        proof {
            assert forall|a: int, b: int| 0 <= a < b < after.len() implies lex_le(
                after[a],
                after[b],
            ) by {
                if a == p {
                    assert(after[b] == before[b - 1]);
                    assert(before[p as int] == keys@[p as int]@);
                    lex_le_total(before[p as int], key@);
                    if b - 1 > p {
                        assert(lex_le(before[p as int], before[b - 1]));
                    } else {
                        lex_le_total(before[p as int], before[p as int]);
                    }
                    lex_le_transitive(key@, before[p as int], before[b - 1]);
                } else if b == p {
                    assert(after[a] == before[a]);
                } else if a < p {
                    if b < p {
                        assert(lex_le(before[a], before[b]));
                    } else {
                        assert(lex_le(before[a], before[b - 1]));
                    }
                } else {
                    assert(lex_le(before[a - 1], before[b - 1]));
                }
            }
            vstd::seq_lib::to_multiset_insert(before, p as int, key@);
            assert(texts(input@).take(i + 1) =~= texts(input@).take(i as int).push(key@));
            vstd::seq_lib::to_multiset_build(texts(input@).take(i as int), key@);
        }
        out.insert(p, item);
        keys.insert(p, key);
        proof {
            assert(texts(out@) =~= after);
        }
        i += 1;
    }
    proof {
        assert(texts(input@).take(i as int) =~= texts(input@));
    }
    out
}

} // verus!
