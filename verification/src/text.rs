//! Text as sequences of characters: searching, cutting into lines and fields,
//! numbers, and the template form every message is written in.
use vstd::prelude::*;
use vstd::string::*;

verus! {

/// `String::push` appends the character to the end of the string.
pub assume_specification[ String::push ](s: &mut String, c: char)
    ensures
        final(s)@ == old(s)@.push(c),
;

/// The characters of each string.
pub open spec fn views(v: Seq<String>) -> Seq<Seq<char>> {
    Seq::new(v.len(), |i: int| v[i]@)
}

/// The characters of each row.
pub open spec fn rows(v: Seq<Vec<char>>) -> Seq<Seq<char>> {
    Seq::new(v.len(), |i: int| v[i]@)
}

/// The characters of an optional string.
pub open spec fn opt_view(s: Option<String>) -> Option<Seq<char>> {
    match s {
        Some(s) => Some(s@),
        None => None,
    }
}

pub fn chars_of(s: &str) -> (r: Vec<char>)
    ensures
        r@ == s@,
{
    let mut out: Vec<char> = Vec::new();
    for c in it: s.chars()
        invariant
            it.seq() == s@,
            out@ == s@.take(it.index()),
    {
        proof {
            assert(s@.take(it.index() + 1) =~= s@.take(it.index()).push(c));
        }
        out.push(c);
    }
    proof {
        assert(s@.take(s@.len() as int) =~= s@);
    }
    out
}

pub fn string_of(s: &Vec<char>) -> (r: String)
    ensures
        r@ == s@,
{
    let mut out = String::new();
    let n: usize = s.len();
    let mut i: usize = 0;
    while i < n
        invariant
            n == s@.len(),
            i <= n,
            out@ == s@.take(i as int),
        decreases n - i,
    {
        proof {
            assert(s@.take(i as int + 1) =~= s@.take(i as int).push(s@[i as int]));
        }
        out.push(s[i]);
        i = i + 1;
    }
    proof {
        assert(s@.take(n as int) =~= s@);
    }
    out
}

/// Whether two texts hold the same characters.
pub fn same(a: &str, b: &str) -> (r: bool)
    ensures
        r == (a@ == b@),
{
    let x = String::from_str(a);
    let y = String::from_str(b);
    x == y
}

/// Whether two rows of characters are equal.
pub fn same_chars(a: &Vec<char>, b: &Vec<char>) -> (r: bool)
    ensures
        r == (a@ == b@),
{
    let n: usize = a.len();
    if n != b.len() {
        return false;
    }
    let mut i: usize = 0;
    while i < n
        invariant
            n == a@.len(),
            n == b@.len(),
            i <= n,
            forall|k: int| 0 <= k < i ==> a@[k] == b@[k],
        decreases n - i,
    {
        if a[i] != b[i] {
            return false;
        }
        i = i + 1;
    }
    proof {
        assert(a@ =~= b@);
    }
    true
}

/// The characters from `i` up to `j`.
pub fn slice(s: &Vec<char>, i: usize, j: usize) -> (r: Vec<char>)
    requires
        i <= j <= s@.len(),
    ensures
        r@ == s@.subrange(i as int, j as int),
{
    let mut out: Vec<char> = Vec::new();
    let mut k: usize = i;
    while k < j
        invariant
            i <= k <= j <= s@.len(),
            out@ == s@.subrange(i as int, k as int),
        decreases j - k,
    {
        out.push(s[k]);
        k = k + 1;
        proof {
            assert(s@.subrange(i as int, k as int) =~= s@.subrange(i as int, k - 1).push(
                s@[k - 1],
            ));
        }
    }
    out
}

/// Appends every character of `tail`.
pub fn push_all(out: &mut Vec<char>, tail: &Vec<char>)
    ensures
        final(out)@ == old(out)@ + tail@,
{
    let ghost start = out@;
    let n: usize = tail.len();
    let mut i: usize = 0;
    while i < n
        invariant
            n == tail@.len(),
            i <= n,
            out@ == start + tail@.take(i as int),
        decreases n - i,
    {
        out.push(tail[i]);
        i = i + 1;
        proof {
            assert(tail@.take(i as int) =~= tail@.take(i - 1).push(tail@[i - 1]));
            assert(out@ =~= start + tail@.take(i as int));
        }
    }
    proof {
        assert(tail@.take(n as int) =~= tail@);
    }
}

// --- searching -----------------------------------------------------------

/// `p` stands in `s` at position `i`.
pub open spec fn occurs_at(s: Seq<char>, p: Seq<char>, i: int) -> bool {
    &&& 0 <= i
    &&& i + p.len() <= s.len()
    &&& s.subrange(i, i + p.len()) == p
}

/// `p` stands somewhere in `s`.
pub open spec fn contains(s: Seq<char>, p: Seq<char>) -> bool {
    exists|i: int| occurs_at(s, p, i)
}

pub open spec fn starts_with(s: Seq<char>, p: Seq<char>) -> bool {
    occurs_at(s, p, 0)
}

pub open spec fn ends_with(s: Seq<char>, p: Seq<char>) -> bool {
    occurs_at(s, p, s.len() - p.len())
}

/// The first position at or after `from` at which `p` stands in `s`.
pub open spec fn first_at(s: Seq<char>, p: Seq<char>, from: int) -> Option<int>
    decreases s.len() - from,
{
    if from < 0 || from + p.len() > s.len() {
        None
    } else if occurs_at(s, p, from) {
        Some(from)
    } else if from >= s.len() {
        None
    } else {
        first_at(s, p, from + 1)
    }
}

/// The last position before `upto` (by start) at which `p` stands in `s`.
pub open spec fn last_before(s: Seq<char>, p: Seq<char>, upto: int) -> Option<int>
    decreases upto,
{
    if upto <= 0 {
        None
    } else if occurs_at(s, p, upto - 1) {
        Some(upto - 1)
    } else {
        last_before(s, p, upto - 1)
    }
}

/// What `first_at` finds is an occurrence, and nothing earlier is one; what it
/// does not find is not there.
pub proof fn lemma_first_at(s: Seq<char>, p: Seq<char>, from: int)
    requires
        0 <= from,
    ensures
        match first_at(s, p, from) {
            Some(i) => from <= i && occurs_at(s, p, i) && forall|j: int|
                from <= j < i ==> !occurs_at(s, p, j),
            None => forall|j: int| from <= j ==> !occurs_at(s, p, j),
        },
    decreases s.len() - from,
{
    if from + p.len() > s.len() {
    } else if occurs_at(s, p, from) {
    } else if from >= s.len() {
    } else {
        lemma_first_at(s, p, from + 1);
        match first_at(s, p, from + 1) {
            Some(i) => {
                assert forall|j: int| from <= j < i implies !occurs_at(s, p, j) by {
                    if j != from {
                        assert(from + 1 <= j);
                    }
                }
            },
            None => {
                assert forall|j: int| from <= j implies !occurs_at(s, p, j) by {
                    if j != from {
                        assert(from + 1 <= j);
                    }
                }
            },
        }
    }
}

/// The position of the first occurrence is the one that `first_at` names.
pub proof fn lemma_first_at_unique(s: Seq<char>, p: Seq<char>, from: int, i: int)
    requires
        0 <= from <= i,
        occurs_at(s, p, i),
        forall|j: int| from <= j < i ==> !occurs_at(s, p, j),
    ensures
        first_at(s, p, from) == Some(i),
{
    lemma_first_at(s, p, from);
}

pub proof fn lemma_contains_first(s: Seq<char>, p: Seq<char>)
    ensures
        contains(s, p) <==> first_at(s, p, 0) is Some,
{
    lemma_first_at(s, p, 0);
    if contains(s, p) {
        let i = choose|i: int| occurs_at(s, p, i);
        assert(occurs_at(s, p, i));
    }
}

pub proof fn lemma_last_before(s: Seq<char>, p: Seq<char>, upto: int)
    requires
        0 <= upto,
    ensures
        match last_before(s, p, upto) {
            Some(i) => 0 <= i < upto && occurs_at(s, p, i) && forall|j: int|
                i < j < upto ==> !occurs_at(s, p, j),
            None => forall|j: int| 0 <= j < upto ==> !occurs_at(s, p, j),
        },
    decreases upto,
{
    if upto > 0 && !occurs_at(s, p, upto - 1) {
        lemma_last_before(s, p, upto - 1);
    }
}

pub fn is_at(s: &Vec<char>, p: &Vec<char>, i: usize) -> (r: bool)
    ensures
        r == occurs_at(s@, p@, i as int),
{
    let m: usize = p.len();
    let n: usize = s.len();
    if i > n || m > n - i {
        return false;
    }
    let mut k: usize = 0;
    while k < m
        invariant
            m == p@.len(),
            n == s@.len(),
            i <= n,
            m <= n - i,
            k <= m,
            forall|j: int| 0 <= j < k ==> s@[i + j] == p@[j],
        decreases m - k,
    {
        if s[i + k] != p[k] {
            proof {
                assert(s@.subrange(i as int, i + m)[k as int] == s@[i + k]);
            }
            return false;
        }
        k = k + 1;
    }
    proof {
        assert(s@.subrange(i as int, i + m) =~= p@);
    }
    true
}

pub fn find_from(s: &Vec<char>, p: &Vec<char>, from: usize) -> (r: Option<usize>)
    ensures
        match r {
            Some(i) => first_at(s@, p@, from as int) == Some(i as int) && i + p@.len() <= s@.len(),
            None => first_at(s@, p@, from as int) is None,
        },
{
    let n: usize = s.len();
    let mut i: usize = from;
    while i <= n
        invariant
            n == s@.len(),
            from <= i,
            i <= n + 1 || i == from,
            first_at(s@, p@, from as int) == first_at(s@, p@, i as int),
        decreases n + 1 - i,
    {
        if is_at(s, p, i) {
            return Some(i);
        }
        if i == n {
            return None;
        }
        i = i + 1;
    }
    None
}

pub fn has(s: &Vec<char>, p: &Vec<char>) -> (r: bool)
    ensures
        r == contains(s@, p@),
{
    let found = find_from(s, p, 0);
    proof {
        lemma_contains_first(s@, p@);
    }
    found.is_some()
}

pub fn str_has(s: &str, p: &str) -> (r: bool)
    ensures
        r == contains(s@, p@),
{
    has(&chars_of(s), &chars_of(p))
}

pub fn str_starts(s: &str, p: &str) -> (r: bool)
    ensures
        r == starts_with(s@, p@),
{
    is_at(&chars_of(s), &chars_of(p), 0)
}

pub fn find_last_before(s: &Vec<char>, p: &Vec<char>, upto: usize) -> (r: Option<usize>)
    ensures
        match r {
            Some(i) => last_before(s@, p@, upto as int) == Some(i as int) && i + p@.len()
                <= s@.len(),
            None => last_before(s@, p@, upto as int) is None,
        },
{
    let mut i: usize = upto;
    while i > 0
        invariant
            i <= upto,
            last_before(s@, p@, upto as int) == last_before(s@, p@, i as int),
        decreases i,
    {
        if is_at(s, p, i - 1) {
            return Some(i - 1);
        }
        i = i - 1;
    }
    None
}

/// The Unicode `White_Space` characters.
pub open spec fn is_space(c: char) -> bool {
    ||| '\u{9}' <= c <= '\u{d}'
    ||| c == ' '
    ||| c == '\u{85}'
    ||| c == '\u{a0}'
    ||| c == '\u{1680}'
    ||| '\u{2000}' <= c <= '\u{200a}'
    ||| c == '\u{2028}'
    ||| c == '\u{2029}'
    ||| c == '\u{202f}'
    ||| c == '\u{205f}'
    ||| c == '\u{3000}'
}

pub open spec fn is_digit(c: char) -> bool {
    '0' <= c <= '9'
}

/// The characters a piece of text is cut or trimmed at.
#[derive(Clone, Copy)]
pub enum Class {
    /// One character.
    Is(char),
    /// Any whitespace.
    Space,
    /// Anything that is neither a decimal digit nor a minus sign.
    NotNumeric,
    /// Anything that is not a decimal digit.
    NotDigit,
}

impl Class {
    pub open spec fn holds(self, c: char) -> bool {
        match self {
            Class::Is(x) => c == x,
            Class::Space => is_space(c),
            Class::NotNumeric => !(is_digit(c) || c == '-'),
            Class::NotDigit => !is_digit(c),
        }
    }

    pub fn admits(&self, c: char) -> (r: bool)
        ensures
            r == self.holds(c),
    {
        match self {
            Class::Is(x) => c == *x,
            Class::Space => space(c),
            Class::NotNumeric => !(digit(c) || c == '-'),
            Class::NotDigit => !digit(c),
        }
    }
}

pub fn space(c: char) -> (r: bool)
    ensures
        r == is_space(c),
{
    ('\u{9}' <= c && c <= '\u{d}') || c == ' ' || c == '\u{85}' || c == '\u{a0}' || c == '\u{1680}'
        || ('\u{2000}' <= c && c <= '\u{200a}') || c == '\u{2028}' || c == '\u{2029}' || c
        == '\u{202f}' || c == '\u{205f}' || c == '\u{3000}'
}

pub fn digit(c: char) -> (r: bool)
    ensures
        r == is_digit(c),
{
    '0' <= c && c <= '9'
}

// --- trimming ------------------------------------------------------------

pub open spec fn trim_start(s: Seq<char>, k: Class) -> Seq<char>
    decreases s.len(),
{
    if s.len() > 0 && k.holds(s[0]) {
        trim_start(s.skip(1), k)
    } else {
        s
    }
}

pub open spec fn trim_end(s: Seq<char>, k: Class) -> Seq<char>
    decreases s.len(),
{
    if s.len() > 0 && k.holds(s.last()) {
        trim_end(s.drop_last(), k)
    } else {
        s
    }
}

/// Without the leading and trailing characters of the class.
pub open spec fn trim_class(s: Seq<char>, k: Class) -> Seq<char> {
    trim_end(trim_start(s, k), k)
}

/// Without leading and trailing whitespace.
pub open spec fn trim(s: Seq<char>) -> Seq<char> {
    trim_class(s, Class::Space)
}

pub fn trimmed_start(s: &Vec<char>, k: Class) -> (r: Vec<char>)
    ensures
        r@ == trim_start(s@, k),
{
    let n: usize = s.len();
    let mut i: usize = 0;
    proof {
        assert(s@.skip(0) =~= s@);
    }
    while i < n && k.admits(s[i])
        invariant
            n == s@.len(),
            i <= n,
            trim_start(s@, k) == trim_start(s@.skip(i as int), k),
        decreases n - i,
    {
        proof {
            assert(s@.skip(i as int).skip(1) =~= s@.skip(i + 1));
        }
        i = i + 1;
    }
    proof {
        assert(s@.skip(i as int) =~= s@.subrange(i as int, n as int));
        if i < n {
            assert(s@.skip(i as int)[0] == s@[i as int]);
        }
    }
    slice(s, i, n)
}

pub fn trimmed_end(s: &Vec<char>, k: Class) -> (r: Vec<char>)
    ensures
        r@ == trim_end(s@, k),
{
    let mut j: usize = s.len();
    proof {
        assert(s@.take(j as int) =~= s@);
    }
    while j > 0 && k.admits(s[j - 1])
        invariant
            j <= s@.len(),
            trim_end(s@, k) == trim_end(s@.take(j as int), k),
        decreases j,
    {
        proof {
            assert(s@.take(j as int).drop_last() =~= s@.take(j - 1));
        }
        j = j - 1;
    }
    proof {
        assert(s@.take(j as int) =~= s@.subrange(0, j as int));
    }
    slice(s, 0, j)
}

pub fn trimmed_class(s: &Vec<char>, k: Class) -> (r: Vec<char>)
    ensures
        r@ == trim_class(s@, k),
{
    trimmed_end(&trimmed_start(s, k), k)
}

pub fn trimmed(s: &Vec<char>) -> (r: Vec<char>)
    ensures
        r@ == trim(s@),
{
    trimmed_class(s, Class::Space)
}

pub fn trimmed_str(s: &str) -> (r: String)
    ensures
        r@ == trim(s@),
{
    string_of(&trimmed(&chars_of(s)))
}

// --- cutting -------------------------------------------------------------

/// The first position at or after `from` that holds a character of the class.
pub open spec fn position(s: Seq<char>, k: Class, from: int) -> Option<int>
    decreases s.len() - from,
{
    if from < 0 || from >= s.len() {
        None
    } else if k.holds(s[from]) {
        Some(from)
    } else {
        position(s, k, from + 1)
    }
}

pub proof fn lemma_position(s: Seq<char>, k: Class, from: int)
    requires
        0 <= from,
    ensures
        match position(s, k, from) {
            Some(i) => from <= i < s.len() && k.holds(s[i]) && forall|j: int|
                from <= j < i ==> !k.holds(s[j]),
            None => forall|j: int| from <= j < s.len() ==> !k.holds(s[j]),
        },
    decreases s.len() - from,
{
    if from < s.len() && !k.holds(s[from]) {
        lemma_position(s, k, from + 1);
    }
}

pub fn position_of(s: &Vec<char>, k: Class, from: usize) -> (r: Option<usize>)
    ensures
        match r {
            Some(i) => position(s@, k, from as int) == Some(i as int) && from <= i < s@.len(),
            None => position(s@, k, from as int) is None,
        },
{
    let n: usize = s.len();
    let mut i: usize = from;
    while i < n
        invariant
            n == s@.len(),
            from <= i,
            position(s@, k, from as int) == position(s@, k, i as int),
        decreases n - i,
    {
        if k.admits(s[i]) {
            return Some(i);
        }
        i = i + 1;
    }
    None
}

pub proof fn lemma_position_shift(s: Seq<char>, k: Class, start: int, from: int)
    requires
        0 <= start <= s.len(),
        0 <= from,
    ensures
        position(s.skip(start), k, from) == (match position(s, k, start + from) {
            Some(i) => Some(i - start),
            None => None,
        }),
    decreases s.len() - start - from,
{
    if from < s.len() - start {
        assert(s.skip(start)[from] == s[start + from]);
        if !k.holds(s[start + from]) {
            lemma_position_shift(s, k, start, from + 1);
        }
    }
}

/// The pieces between the characters of the class: always at least one.
pub open spec fn split(s: Seq<char>, k: Class) -> Seq<Seq<char>>
    decreases s.len(),
    via split_decreases
{
    match position(s, k, 0) {
        Some(i) => seq![s.take(i)] + split(s.skip(i + 1), k),
        None => seq![s],
    }
}

#[via_fn]
proof fn split_decreases(s: Seq<char>, k: Class) {
    lemma_position(s, k, 0);
}

pub fn split_at(s: &Vec<char>, k: Class) -> (r: Vec<Vec<char>>)
    ensures
        rows(r@) == split(s@, k),
        r@.len() > 0,
{
    let n: usize = s.len();
    let mut out: Vec<Vec<char>> = Vec::new();
    let mut start: usize = 0;
    proof {
        assert(s@.skip(0) =~= s@);
        assert(rows(out@) + split(s@.skip(0), k) =~= split(s@, k));
    }
    loop
        invariant
            n == s@.len(),
            start <= n,
            rows(out@) + split(s@.skip(start as int), k) == split(s@, k),
        decreases n - start,
    {
        proof {
            lemma_position_shift(s@, k, start as int, 0);
        }
        match position_of(s, k, start) {
            Some(i) => {
                let ghost before = out@;
                out.push(slice(s, start, i));
                proof {
                    let rest = s@.skip(start as int);
                    assert(rest.take(i - start) =~= s@.subrange(start as int, i as int));
                    assert(rest.skip(i - start + 1) =~= s@.skip(i + 1));
                    assert(rows(out@) =~= rows(before) + seq![s@.subrange(start as int, i as int)]);
                    assert(rows(out@) + split(s@.skip(i + 1), k) =~= rows(before) + split(rest, k));
                }
                start = i + 1;
            },
            None => {
                let ghost before = out@;
                out.push(slice(s, start, n));
                proof {
                    let rest = s@.skip(start as int);
                    assert(rest =~= s@.subrange(start as int, n as int));
                    assert(split(rest, k) =~= seq![rest]);
                    assert(rows(out@) =~= rows(before) + seq![rest]);
                }
                return out;
            },
        }
    }
}

/// The non-empty pieces.
pub open spec fn non_empty(parts: Seq<Seq<char>>) -> Seq<Seq<char>>
    decreases parts.len(),
{
    if parts.len() == 0 {
        seq![]
    } else {
        let rest = non_empty(parts.drop_last());
        if parts.last().len() == 0 {
            rest
        } else {
            rest.push(parts.last())
        }
    }
}

/// The words between runs of the class.
pub open spec fn words_by(s: Seq<char>, k: Class) -> Seq<Seq<char>> {
    non_empty(split(s, k))
}

/// The words between runs of whitespace.
pub open spec fn words(s: Seq<char>) -> Seq<Seq<char>> {
    words_by(s, Class::Space)
}

pub fn words_of_class(s: &Vec<char>, k: Class) -> (r: Vec<Vec<char>>)
    ensures
        rows(r@) == words_by(s@, k),
{
    let parts = split_at(s, k);
    let n: usize = parts.len();
    let mut out: Vec<Vec<char>> = Vec::new();
    let mut i: usize = 0;
    proof {
        assert(rows(parts@).take(0) =~= seq![]);
        assert(rows(out@) =~= seq![]);
    }
    while i < n
        invariant
            n == parts@.len(),
            i <= n,
            rows(out@) == non_empty(rows(parts@).take(i as int)),
        decreases n - i,
    {
        let ghost before = out@;
        proof {
            assert(rows(parts@).take(i + 1).drop_last() =~= rows(parts@).take(i as int));
            assert(rows(parts@).take(i + 1).last() == parts@[i as int]@);
        }
        if parts[i].len() > 0 {
            out.push(slice(&parts[i], 0, parts[i].len()));
            proof {
                assert(parts@[i as int]@.subrange(0, parts@[i as int]@.len() as int)
                    =~= parts@[i as int]@);
                assert(rows(out@) =~= rows(before).push(parts@[i as int]@));
            }
        }
        i = i + 1;
    }
    proof {
        assert(rows(parts@).take(n as int) =~= rows(parts@));
    }
    out
}

pub fn words_of(s: &Vec<char>) -> (r: Vec<Vec<char>>)
    ensures
        rows(r@) == words(s@),
{
    words_of_class(s, Class::Space)
}

/// A line without the carriage return that ended it.
pub open spec fn strip_return(s: Seq<char>) -> Seq<char> {
    if s.len() > 0 && s.last() == '\r' {
        s.drop_last()
    } else {
        s
    }
}

/// The lines of a text: each ends at `\n` or `\r\n`, and a text that ends with
/// a line ending has no further, empty line.
pub open spec fn lines(s: Seq<char>) -> Seq<Seq<char>>
    decreases s.len(),
    via lines_decreases
{
    if s.len() == 0 {
        seq![]
    } else {
        match position(s, Class::Is('\n'), 0) {
            Some(i) => seq![strip_return(s.take(i))] + lines(s.skip(i + 1)),
            None => seq![s],
        }
    }
}

#[via_fn]
proof fn lines_decreases(s: Seq<char>) {
    lemma_position(s, Class::Is('\n'), 0);
}

pub fn lines_of(s: &Vec<char>) -> (r: Vec<Vec<char>>)
    ensures
        rows(r@) == lines(s@),
{
    let n: usize = s.len();
    let mut out: Vec<Vec<char>> = Vec::new();
    let mut start: usize = 0;
    proof {
        assert(s@.skip(0) =~= s@);
        assert(rows(out@) + lines(s@.skip(0)) =~= lines(s@));
    }
    while start < n
        invariant
            n == s@.len(),
            start <= n,
            rows(out@) + lines(s@.skip(start as int)) == lines(s@),
        decreases n - start,
    {
        let ghost rest = s@.skip(start as int);
        let ghost before = out@;
        proof {
            lemma_position_shift(s@, Class::Is('\n'), start as int, 0);
        }
        match position_of(s, Class::Is('\n'), start) {
            Some(i) => {
                let end: usize = if i > start && s[i - 1] == '\r' {
                    i - 1
                } else {
                    i
                };
                out.push(slice(s, start, end));
                proof {
                    let piece = s@.subrange(start as int, end as int);
                    assert(rest.take(i - start) =~= s@.subrange(start as int, i as int));
                    assert(strip_return(rest.take(i - start)) =~= piece);
                    assert(rest.skip(i - start + 1) =~= s@.skip(i + 1));
                    assert(rows(out@) =~= rows(before) + seq![piece]);
                    assert(rows(out@) + lines(s@.skip(i + 1)) =~= rows(before) + lines(rest));
                }
                start = i + 1;
            },
            None => {
                out.push(slice(s, start, n));
                proof {
                    assert(rest =~= s@.subrange(start as int, n as int));
                    assert(lines(rest) =~= seq![rest]);
                    assert(rows(out@) =~= rows(before) + seq![rest]);
                    assert(lines(s@.skip(n as int)) =~= seq![]);
                    assert(rows(out@) + lines(s@.skip(n as int)) =~= rows(before) + lines(rest));
                }
                start = n;
            },
        }
    }
    proof {
        assert(lines(s@.skip(n as int)) =~= seq![]);
        assert(rows(out@) + lines(s@.skip(n as int)) =~= rows(out@));
    }
    out
}

// --- joining -------------------------------------------------------------

pub open spec fn join(parts: Seq<Seq<char>>, sep: Seq<char>) -> Seq<char>
    decreases parts.len(),
{
    if parts.len() == 0 {
        seq![]
    } else if parts.len() == 1 {
        parts[0]
    } else {
        join(parts.drop_last(), sep) + sep + parts.last()
    }
}

pub fn joined(parts: &Vec<String>, sep: &str) -> (r: String)
    ensures
        r@ == join(views(parts@), sep@),
{
    let n: usize = parts.len();
    let mut out = String::new();
    let mut i: usize = 0;
    proof {
        assert(views(parts@).take(0) =~= seq![]);
        assert(out@ =~= join(views(parts@).take(0), sep@));
    }
    while i < n
        invariant
            n == parts@.len(),
            i <= n,
            out@ == join(views(parts@).take(i as int), sep@),
        decreases n - i,
    {
        proof {
            assert(views(parts@).take(i + 1).drop_last() =~= views(parts@).take(i as int));
            assert(views(parts@).take(i + 1).last() == parts@[i as int]@);
        }
        if i > 0 {
            out.append(sep);
        }
        out.append(parts[i].as_str());
        proof {
            if i == 0 {
                assert(out@ =~= parts@[0]@);
            }
            assert(out@ =~= join(views(parts@).take(i + 1), sep@));
        }
        i = i + 1;
    }
    proof {
        assert(views(parts@).take(n as int) =~= views(parts@));
    }
    out
}

/// The text with every `p` replaced, from the left and without overlap.
pub open spec fn replace_all(s: Seq<char>, p: Seq<char>, with: Seq<char>) -> Seq<char>
    decreases s.len(),
    via replace_all_decreases
{
    if p.len() == 0 {
        s
    } else {
        match first_at(s, p, 0) {
            None => s,
            Some(i) => s.take(i) + with + replace_all(s.skip(i + p.len()), p, with),
        }
    }
}

#[via_fn]
proof fn replace_all_decreases(s: Seq<char>, p: Seq<char>, with: Seq<char>) {
    lemma_first_at(s, p, 0);
}

pub proof fn lemma_first_at_shift(s: Seq<char>, p: Seq<char>, start: int, from: int)
    requires
        0 <= start <= s.len(),
        0 <= from,
    ensures
        first_at(s.skip(start), p, from) == (match first_at(s, p, start + from) {
            Some(i) => Some(i - start),
            None => None,
        }),
    decreases s.len() - start - from,
{
    let t = s.skip(start);
    if from + p.len() <= t.len() {
        assert(t.subrange(from, from + p.len()) =~= s.subrange(
            start + from,
            start + from + p.len(),
        ));
        if !occurs_at(t, p, from) && from < t.len() {
            lemma_first_at_shift(s, p, start, from + 1);
        }
    }
}

/// Replaces every `p`, which is not empty.
pub fn replaced_all(s: &str, p: &str, with: &str) -> (r: String)
    requires
        p@.len() > 0,
    ensures
        r@ == replace_all(s@, p@, with@),
{
    let chars = chars_of(s);
    let mark = chars_of(p);
    let fresh = chars_of(with);
    let n: usize = chars.len();
    let mut out: Vec<char> = Vec::new();
    let mut start: usize = 0;
    proof {
        assert(chars@.skip(0) =~= chars@);
        assert(out@ + replace_all(chars@.skip(0), mark@, fresh@) =~= replace_all(
            chars@,
            mark@,
            fresh@,
        ));
    }
    loop
        invariant
            n == chars@.len(),
            start <= n,
            mark@.len() > 0,
            mark@ == p@,
            fresh@ == with@,
            chars@ == s@,
            out@ + replace_all(chars@.skip(start as int), mark@, fresh@) == replace_all(
                chars@,
                mark@,
                fresh@,
            ),
        decreases n - start,
    {
        let ghost rest = chars@.skip(start as int);
        let ghost before = out@;
        proof {
            lemma_first_at_shift(chars@, mark@, start as int, 0);
            lemma_first_at(chars@, mark@, start as int);
        }
        match find_from(&chars, &mark, start) {
            None => {
                push_all(&mut out, &slice(&chars, start, n));
                proof {
                    assert(rest =~= chars@.subrange(start as int, n as int));
                }
                return string_of(&out);
            },
            Some(i) => {
                push_all(&mut out, &slice(&chars, start, i));
                push_all(&mut out, &fresh);
                let next: usize = i + mark.len();
                proof {
                    assert(rest.take(i - start) =~= chars@.subrange(start as int, i as int));
                    assert(rest.skip(i - start + mark@.len()) =~= chars@.skip(next as int));
                    assert(out@ + replace_all(chars@.skip(next as int), mark@, fresh@) =~= before
                        + replace_all(rest, mark@, fresh@));
                }
                start = next;
            },
        }
    }
}

// --- lists of pieces -----------------------------------------------------

/// What the function makes of each piece, without the pieces it makes nothing
/// of.
pub open spec fn collect<A>(parts: Seq<Seq<char>>, f: spec_fn(Seq<char>) -> Option<A>) -> Seq<A>
    decreases parts.len(),
{
    if parts.len() == 0 {
        seq![]
    } else {
        let rest = collect(parts.drop_last(), f);
        match f(parts.last()) {
            Some(a) => rest.push(a),
            None => rest,
        }
    }
}

pub proof fn lemma_collect_next<A>(
    parts: Seq<Seq<char>>,
    f: spec_fn(Seq<char>) -> Option<A>,
    i: int,
)
    requires
        0 <= i < parts.len(),
    ensures
        collect(parts.take(i + 1), f) == (match f(parts[i]) {
            Some(a) => collect(parts.take(i), f).push(a),
            None => collect(parts.take(i), f),
        }),
{
    assert(parts.take(i + 1).drop_last() =~= parts.take(i));
    assert(parts.take(i + 1).last() == parts[i]);
}

/// What the function makes of the first piece it makes something of.
pub open spec fn first_some<A>(
    parts: Seq<Seq<char>>,
    f: spec_fn(Seq<char>) -> Option<A>,
) -> Option<A>
    decreases parts.len(),
{
    if parts.len() == 0 {
        None
    } else {
        match f(parts[0]) {
            Some(a) => Some(a),
            None => first_some(parts.skip(1), f),
        }
    }
}

pub proof fn lemma_first_some_next<A>(
    parts: Seq<Seq<char>>,
    f: spec_fn(Seq<char>) -> Option<A>,
    i: int,
)
    requires
        0 <= i <= parts.len(),
    ensures
        i == 0 ==> first_some(parts.skip(i), f) == first_some(parts, f),
        first_some(parts.skip(i), f) == (if i == parts.len() {
            None
        } else {
            match f(parts[i]) {
                Some(a) => Some(a),
                None => first_some(parts.skip(i + 1), f),
            }
        }),
{
    if i == 0 {
        assert(parts.skip(0) =~= parts);
    }
    if i < parts.len() {
        assert(parts.skip(i)[0] == parts[i]);
        assert(parts.skip(i).skip(1) =~= parts.skip(i + 1));
    }
}

/// The first piece that holds the text.
pub open spec fn first_with(parts: Seq<Seq<char>>, p: Seq<char>) -> Option<Seq<char>> {
    first_some(
        parts,
        |line: Seq<char>|
            if contains(line, p) {
                Some(line)
            } else {
                None
            },
    )
}

pub fn find_with(parts: &Vec<Vec<char>>, p: &Vec<char>) -> (r: Option<usize>)
    ensures
        match r {
            Some(i) => i < parts@.len() && first_with(rows(parts@), p@) == Some(parts@[i as int]@),
            None => first_with(rows(parts@), p@) is None,
        },
{
    let n: usize = parts.len();
    let ghost f = |line: Seq<char>|
        if contains(line, p@) {
            Some(line)
        } else {
            None
        };
    let mut i: usize = 0;
    proof {
        lemma_first_some_next(rows(parts@), f, 0);
    }
    while i < n
        invariant
            n == parts@.len(),
            i <= n,
            f == (|line: Seq<char>|
                if contains(line, p@) {
                    Some(line)
                } else {
                    None
                }),
            first_some(rows(parts@), f) == first_some(rows(parts@).skip(i as int), f),
        decreases n - i,
    {
        proof {
            lemma_first_some_next(rows(parts@), f, i as int);
        }
        if has(&parts[i], p) {
            return Some(i);
        }
        i = i + 1;
    }
    proof {
        lemma_first_some_next(rows(parts@), f, n as int);
    }
    None
}

/// Order of texts, character by character.
pub open spec fn precedes(a: Seq<char>, b: Seq<char>) -> bool
    decreases a.len(),
{
    if b.len() == 0 {
        false
    } else if a.len() == 0 {
        true
    } else if a[0] == b[0] {
        precedes(a.skip(1), b.skip(1))
    } else {
        a[0] < b[0]
    }
}

pub fn comes_before(a: &Vec<char>, b: &Vec<char>) -> (r: bool)
    ensures
        r == precedes(a@, b@),
{
    let n: usize = a.len();
    let m: usize = b.len();
    let mut i: usize = 0;
    proof {
        assert(a@.skip(0) =~= a@);
        assert(b@.skip(0) =~= b@);
    }
    while i < n && i < m
        invariant
            n == a@.len(),
            m == b@.len(),
            i <= n,
            i <= m,
            precedes(a@, b@) == precedes(a@.skip(i as int), b@.skip(i as int)),
        decreases n - i,
    {
        proof {
            assert(a@.skip(i as int)[0] == a@[i as int]);
            assert(b@.skip(i as int)[0] == b@[i as int]);
            assert(a@.skip(i as int).skip(1) =~= a@.skip(i + 1));
            assert(b@.skip(i as int).skip(1) =~= b@.skip(i + 1));
        }
        if a[i] != b[i] {
            return a[i] < b[i];
        }
        i = i + 1;
    }
    i < m
}

/// No text comes before itself.
pub proof fn lemma_not_before_itself(a: Seq<char>)
    ensures
        !precedes(a, a),
    decreases a.len(),
{
    if a.len() > 0 {
        lemma_not_before_itself(a.skip(1));
    }
}

pub proof fn lemma_precedes_transitive(a: Seq<char>, b: Seq<char>, c: Seq<char>)
    requires
        precedes(a, b),
        precedes(b, c),
    ensures
        precedes(a, c),
    decreases a.len(),
{
    if a.len() > 0 && b.len() > 0 && c.len() > 0 && a[0] == b[0] && b[0] == c[0] {
        lemma_precedes_transitive(a.skip(1), b.skip(1), c.skip(1));
    }
}

/// Two different texts stand in one order or the other.
pub proof fn lemma_precedes_total(a: Seq<char>, b: Seq<char>)
    requires
        a != b,
        !precedes(a, b),
    ensures
        precedes(b, a),
    decreases a.len(),
{
    if a.len() > 0 && b.len() > 0 && a[0] == b[0] {
        if a.skip(1) == b.skip(1) {
            assert(a =~= seq![a[0]] + a.skip(1));
            assert(b =~= seq![b[0]] + b.skip(1));
        }
        lemma_precedes_total(a.skip(1), b.skip(1));
    } else if a.len() == 0 && b.len() == 0 {
        assert(a =~= b);
    }
}

// --- lists of strings ----------------------------------------------------

pub fn list_one(a: String) -> (r: Vec<String>)
    ensures
        views(r@) == seq![a@],
{
    let mut r: Vec<String> = Vec::new();
    r.push(a);
    proof {
        assert(views(r@) =~= seq![a@]);
    }
    r
}

pub fn list_two(a: String, b: String) -> (r: Vec<String>)
    ensures
        views(r@) == seq![a@, b@],
{
    let mut r: Vec<String> = Vec::new();
    r.push(a);
    r.push(b);
    proof {
        assert(views(r@) =~= seq![a@, b@]);
    }
    r
}

pub fn list_three(a: String, b: String, c: String) -> (r: Vec<String>)
    ensures
        views(r@) == seq![a@, b@, c@],
{
    let mut r: Vec<String> = Vec::new();
    r.push(a);
    r.push(b);
    r.push(c);
    proof {
        assert(views(r@) =~= seq![a@, b@, c@]);
    }
    r
}

pub fn list_four(a: String, b: String, c: String, d: String) -> (r: Vec<String>)
    ensures
        views(r@) == seq![a@, b@, c@, d@],
{
    let mut r: Vec<String> = Vec::new();
    r.push(a);
    r.push(b);
    r.push(c);
    r.push(d);
    proof {
        assert(views(r@) =~= seq![a@, b@, c@, d@]);
    }
    r
}

pub fn list_six(a: String, b: String, c: String, d: String, e: String, f: String) -> (r: Vec<
    String,
>)
    ensures
        views(r@) == seq![a@, b@, c@, d@, e@, f@],
{
    let mut r: Vec<String> = Vec::new();
    r.push(a);
    r.push(b);
    r.push(c);
    r.push(d);
    r.push(e);
    r.push(f);
    proof {
        assert(views(r@) =~= seq![a@, b@, c@, d@, e@, f@]);
    }
    r
}

pub fn copy_list(list: &Vec<String>) -> (r: Vec<String>)
    ensures
        views(r@) == views(list@),
{
    let n: usize = list.len();
    let mut out: Vec<String> = Vec::new();
    let mut i: usize = 0;
    while i < n
        invariant
            n == list@.len(),
            i <= n,
            views(out@) == views(list@).take(i as int),
        decreases n - i,
    {
        let ghost before = out@;
        out.push(list[i].clone());
        i = i + 1;
        proof {
            assert(views(out@) =~= views(before).push(list@[i - 1]@));
            assert(views(out@) =~= views(list@).take(i as int));
        }
    }
    proof {
        assert(views(list@).take(n as int) =~= views(list@));
    }
    out
}

/// Adds a string to a list.
pub fn push_string(list: &mut Vec<String>, s: String)
    ensures
        views(final(list)@) == views(old(list)@).push(s@),
{
    let ghost before = list@;
    list.push(s);
    proof {
        assert(views(list@) =~= views(before).push(s@));
    }
}

/// Whether the list holds the text.
pub fn list_has(list: &Vec<String>, s: &str) -> (r: bool)
    ensures
        r == views(list@).contains(s@),
{
    let n: usize = list.len();
    let mut i: usize = 0;
    while i < n
        invariant
            n == list@.len(),
            i <= n,
            forall|k: int| 0 <= k < i ==> list@[k]@ != s@,
        decreases n - i,
    {
        if same(list[i].as_str(), s) {
            proof {
                assert(views(list@)[i as int] == s@);
            }
            return true;
        }
        i = i + 1;
    }
    false
}

// --- letter case ---------------------------------------------------------

pub open spec fn ascii_lower_char(c: char) -> char {
    if 'A' <= c <= 'Z' {
        ((c as u32) + 32) as char
    } else {
        c
    }
}

pub open spec fn ascii_lower(s: Seq<char>) -> Seq<char> {
    s.map_values(|c: char| ascii_lower_char(c))
}

pub fn lower_char(c: char) -> (r: char)
    ensures
        r == ascii_lower_char(c),
{
    if 'A' <= c && c <= 'Z' {
        let code: u8 = c as u8;
        let lower: u8 = code + 32;
        lower as char
    } else {
        c
    }
}

/// `s` with the ASCII capitals made small.
pub fn ascii_lowered(s: &str) -> (r: String)
    ensures
        r@ == ascii_lower(s@),
{
    let chars = chars_of(s);
    let n: usize = chars.len();
    let mut out: Vec<char> = Vec::new();
    let mut i: usize = 0;
    while i < n
        invariant
            n == chars@.len(),
            i <= n,
            out@ == ascii_lower(chars@.take(i as int)),
        decreases n - i,
    {
        out.push(lower_char(chars[i]));
        i = i + 1;
        proof {
            assert(out@ =~= ascii_lower(chars@.take(i as int)));
        }
    }
    proof {
        assert(chars@.take(n as int) =~= chars@);
    }
    string_of(&out)
}

pub open spec fn ascii_upper_char(c: char) -> char {
    if 'a' <= c <= 'z' {
        ((c as u32) - 32) as char
    } else {
        c
    }
}

pub open spec fn ascii_upper(s: Seq<char>) -> Seq<char> {
    s.map_values(|c: char| ascii_upper_char(c))
}

pub fn upper_char(c: char) -> (r: char)
    ensures
        r == ascii_upper_char(c),
{
    if 'a' <= c && c <= 'z' {
        let code: u8 = c as u8;
        let upper: u8 = code - 32;
        upper as char
    } else {
        c
    }
}

/// `s` with the ASCII small letters made capital.
pub fn ascii_uppered(s: &str) -> (r: String)
    ensures
        r@ == ascii_upper(s@),
{
    let chars = chars_of(s);
    let n: usize = chars.len();
    let mut out: Vec<char> = Vec::new();
    let mut i: usize = 0;
    while i < n
        invariant
            n == chars@.len(),
            i <= n,
            out@ == ascii_upper(chars@.take(i as int)),
        decreases n - i,
    {
        out.push(upper_char(chars[i]));
        i = i + 1;
        proof {
            assert(out@ =~= ascii_upper(chars@.take(i as int)));
        }
    }
    proof {
        assert(chars@.take(n as int) =~= chars@);
    }
    string_of(&out)
}

/// What `str::to_lowercase` returns.
pub uninterp spec fn lowercase(s: Seq<char>) -> Seq<char>;

/// `str::to_lowercase`: the text with every character in lower case. The
/// Unicode case tables are not written out here; the result is a function of
/// the text alone.
#[verifier::external_body]
pub(crate) fn to_lowercase(s: &str) -> (r: String)
    ensures
        r@ == lowercase(s@),
{
    s.to_lowercase()
}

// --- laws ----------------------------------------------------------------

/// Trimming takes away characters of the class at both ends, all of them there
/// and nothing else: what is left stands between the two places returned.
pub proof fn law_trimming_strips_both_ends(s: Seq<char>, k: Class) -> (at: (int, int))
    ensures
        0 <= at.0 <= at.1 <= s.len(),
        trim_class(s, k) == s.subrange(at.0, at.1),
        forall|i: int| 0 <= i < at.0 || at.1 <= i < s.len() ==> k.holds(#[trigger] s[i]),
        at.0 < at.1 ==> !k.holds(s[at.0]) && !k.holds(s[at.1 - 1]),
{
    let a = lemma_trimmed_start(s, k);
    let rest = s.skip(a);
    let b = lemma_trimmed_end(rest, k);
    assert forall|i: int| 0 <= i < a || a + b <= i < s.len() implies k.holds(#[trigger] s[i]) by {
        if i >= a + b {
            assert(s[i] == rest[i - a]);
        }
    }
    assert(rest.take(b) =~= s.subrange(a, a + b));
    if 0 < b {
        assert(s[a] == rest[0]);
        assert(s[a + b - 1] == rest[b - 1]);
    }
    (a, a + b)
}

proof fn lemma_trimmed_start(s: Seq<char>, k: Class) -> (at: int)
    ensures
        0 <= at <= s.len(),
        trim_start(s, k) == s.skip(at),
        forall|i: int| 0 <= i < at ==> k.holds(#[trigger] s[i]),
        at < s.len() ==> !k.holds(s[at]),
    decreases s.len(),
{
    if s.len() > 0 && k.holds(s[0]) {
        let at = lemma_trimmed_start(s.skip(1), k);
        assert(s.skip(1).skip(at) =~= s.skip(at + 1));
        assert forall|i: int| 0 <= i < at + 1 implies k.holds(#[trigger] s[i]) by {
            if i > 0 {
                assert(s[i] == s.skip(1)[i - 1]);
            }
        }
        if at + 1 < s.len() {
            assert(s[at + 1] == s.skip(1)[at]);
        }
        at + 1
    } else {
        assert(s.skip(0) =~= s);
        0
    }
}

proof fn lemma_trimmed_end(s: Seq<char>, k: Class) -> (at: int)
    ensures
        0 <= at <= s.len(),
        trim_end(s, k) == s.take(at),
        forall|i: int| at <= i < s.len() ==> k.holds(#[trigger] s[i]),
        0 < at ==> !k.holds(s[at - 1]),
        s.len() > 0 && !k.holds(s[0]) ==> at > 0,
    decreases s.len(),
{
    if s.len() > 0 && k.holds(s.last()) {
        let at = lemma_trimmed_end(s.drop_last(), k);
        assert(s.drop_last().take(at) =~= s.take(at));
        assert forall|i: int| at <= i < s.len() implies k.holds(#[trigger] s[i]) by {
            if i < s.len() - 1 {
                assert(s[i] == s.drop_last()[i]);
            }
        }
        if 0 < at {
            assert(s[at - 1] == s.drop_last()[at - 1]);
        }
        if s.len() > 1 {
            assert(s[0] == s.drop_last()[0]);
        }
        at
    } else {
        assert(s.take(s.len() as int) =~= s);
        s.len() as int
    }
}

/// A string with nothing of the class at either end is left as it is.
pub proof fn law_nothing_is_trimmed_from_the_middle(s: Seq<char>, k: Class)
    requires
        s.len() > 0 ==> !k.holds(s[0]) && !k.holds(s.last()),
    ensures
        trim_class(s, k) == s,
{
}

/// Splitting a string and joining the parts again gives the string, and no part
/// has the character it was split at.
#[verifier::spinoff_prover]
#[verifier::rlimit(60)]
pub proof fn law_split_parts_join_again(s: Seq<char>, c: char)
    ensures
        join(split(s, Class::Is(c)), seq![c]) == s,
        forall|i: int, j: int|
            #![trigger split(s, Class::Is(c))[i][j]]
            0 <= i < split(s, Class::Is(c)).len() && 0 <= j < split(s, Class::Is(c))[i].len()
                ==> split(s, Class::Is(c))[i][j] != c,
    decreases s.len(),
{
    let k = Class::Is(c);
    lemma_position(s, k, 0);
    match position(s, k, 0) {
        Some(p) => {
            let rest = split(s.skip(p + 1), k);
            law_split_parts_join_again(s.skip(p + 1), c);
            lemma_split_has_a_part(s.skip(p + 1), k);
            lemma_join_first(s.take(p), rest, seq![c]);
            assert(s.take(p) + seq![c] + s.skip(p + 1) =~= s);
            let all = split(s, k);
            assert forall|i: int, j: int|
                #![trigger all[i][j]]
                0 <= i < all.len() && 0 <= j < all[i].len() implies all[i][j] != c by {
                if i > 0 {
                    assert(all[i] == rest[i - 1]);
                    assert(rest[i - 1][j] != c);
                } else {
                    assert(all[0] == s.take(p));
                }
            }
        },
        None => {},
    }
}

proof fn lemma_split_has_a_part(s: Seq<char>, k: Class)
    ensures
        split(s, k).len() > 0,
{
    lemma_position(s, k, 0);
}

/// Joining puts the separator between every two parts and nowhere else.
pub proof fn law_joining_puts_the_separator_between(
    a: Seq<Seq<char>>,
    b: Seq<Seq<char>>,
    sep: Seq<char>,
)
    ensures
        join(seq![], sep) == Seq::<char>::empty(),
        a.len() == 1 ==> join(a, sep) == a[0],
        a.len() > 0 && b.len() > 0 ==> join(a + b, sep) == join(a, sep) + sep + join(b, sep),
    decreases b.len(),
{
    if a.len() > 0 && b.len() > 0 {
        assert((a + b).drop_last() =~= a + b.drop_last());
        assert((a + b).last() == b.last());
        if b.len() == 1 {
            assert(a + b.drop_last() =~= a);
        } else {
            law_joining_puts_the_separator_between(a, b.drop_last(), sep);
            assert(join(a, sep) + sep + join(b.drop_last(), sep) + sep + b.last() =~= join(a, sep)
                + sep + (join(b.drop_last(), sep) + sep + b.last()));
        }
    }
}

proof fn lemma_join_first(first: Seq<char>, rest: Seq<Seq<char>>, sep: Seq<char>)
    requires
        rest.len() > 0,
    ensures
        join(seq![first] + rest, sep) == first + sep + join(rest, sep),
{
    law_joining_puts_the_separator_between(seq![first], rest, sep);
}

/// The words of a text are those before a separator and those after it; a text
/// without one is a word, unless it is empty.
#[verifier::spinoff_prover]
#[verifier::rlimit(60)]
pub proof fn law_words_stand_between_separators(
    a: Seq<char>,
    sep: char,
    b: Seq<char>,
    word: Seq<char>,
    k: Class,
)
    requires
        k.holds(sep),
        forall|i: int| 0 <= i < word.len() ==> !k.holds(#[trigger] word[i]),
    ensures
        words_by(a + seq![sep] + b, k) == words_by(a, k) + words_by(b, k),
        words_by(word, k) == (if word.len() > 0 {
            seq![word]
        } else {
            seq![]
        }),
{
    lemma_split_around(a, sep, b, k);
    lemma_non_empty_of_both(split(a, k), split(b, k));
    lemma_position(word, k, 0);
    assert(split(word, k) == seq![word]);
    assert(seq![word].drop_last() =~= seq![]);
    assert(non_empty(seq![word].drop_last()) =~= seq![]);
    assert(seq![word].last() == word);
    assert(Seq::<Seq<char>>::empty().push(word) =~= seq![word]);
}

#[verifier::spinoff_prover]
#[verifier::rlimit(60)]
pub proof fn lemma_split_around(a: Seq<char>, sep: char, b: Seq<char>, k: Class)
    requires
        k.holds(sep),
    ensures
        split(a + seq![sep] + b, k) == split(a, k) + split(b, k),
    decreases a.len(),
{
    let s = a + seq![sep] + b;
    lemma_position(a, k, 0);
    lemma_position(s, k, 0);
    assert(s[a.len() as int] == sep);
    let p = position(s, k, 0)->0;
    match position(a, k, 0) {
        Some(i) => {
            assert(s[i] == a[i]);
            assert forall|j: int| 0 <= j < i implies !k.holds(#[trigger] s[j]) by {
                assert(s[j] == a[j]);
            }
            assert(p == i) by {
                if p < i {
                    assert(!k.holds(s[p]));
                }
                if i < p {
                    assert(!k.holds(s[i]));
                }
            }
            lemma_split_around(a.skip(i + 1), sep, b, k);
            assert(s.skip(i + 1) =~= a.skip(i + 1) + seq![sep] + b);
            assert(s.take(i) =~= a.take(i));
            assert(seq![a.take(i)] + (split(a.skip(i + 1), k) + split(b, k)) =~= (seq![a.take(i)]
                + split(a.skip(i + 1), k)) + split(b, k));
        },
        None => {
            assert(p == a.len()) by {
                if p < a.len() {
                    assert(s[p] == a[p]);
                }
                if a.len() < p {
                    assert(!k.holds(s[a.len() as int]));
                }
            }
            assert(s.take(p) =~= a);
            assert(s.skip(p + 1) =~= b);
        },
    }
}

proof fn lemma_non_empty_of_both(a: Seq<Seq<char>>, b: Seq<Seq<char>>)
    ensures
        non_empty(a + b) == non_empty(a) + non_empty(b),
    decreases b.len(),
{
    if b.len() == 0 {
        assert(a + b =~= a);
        assert(non_empty(a) + non_empty(b) =~= non_empty(a));
    } else {
        assert((a + b).drop_last() =~= a + b.drop_last());
        assert((a + b).last() == b.last());
        lemma_non_empty_of_both(a, b.drop_last());
        let rest = non_empty(b.drop_last());
        assert((non_empty(a) + rest).push(b.last()) =~= non_empty(a) + rest.push(b.last()));
    }
}

/// A line ends at the newline, without it and without a return before it; what
/// follows are the other lines, and a last line needs no newline.
pub proof fn law_lines_end_at_newlines(line: Seq<char>, rest: Seq<char>)
    requires
        !line.contains('\n'),
    ensures
        lines(line + seq!['\n'] + rest) == seq![
            if line.len() > 0 && line.last() == '\r' {
                line.drop_last()
            } else {
                line
            },
        ] + lines(rest),
        line.len() > 0 ==> lines(line) == seq![line],
        lines(seq![]) == Seq::<Seq<char>>::empty(),
{
    let k = Class::Is('\n');
    let s = line + seq!['\n'] + rest;
    lemma_position(s, k, 0);
    lemma_position(line, k, 0);
    assert(s[line.len() as int] == '\n');
    let p = position(s, k, 0)->0;
    if p < line.len() {
        assert(line[p] == '\n');
    }
    if p > line.len() {
        assert(!k.holds(s[line.len() as int]));
    }
    assert(s.take(p) =~= line);
    assert(s.skip(p + 1) =~= rest);
    if position(line, k, 0) is Some {
        assert(line[position(line, k, 0)->0] == '\n');
    }
}

/// Replacing goes from left to right: the first place is replaced, what is
/// before it stays, and what follows it is treated in the same way.
pub proof fn law_every_place_is_replaced(
    before: Seq<char>,
    p: Seq<char>,
    after: Seq<char>,
    with: Seq<char>,
)
    requires
        p.len() > 0,
        forall|j: int| 0 <= j < before.len() ==> !occurs_at(before + p + after, p, j),
    ensures
        replace_all(before + p + after, p, with) == before + with + replace_all(after, p, with),
        !contains(after, p) ==> replace_all(after, p, with) == after,
{
    let s = before + p + after;
    let i = before.len() as int;
    assert(s.subrange(i, i + p.len()) =~= p);
    lemma_first_at_unique(s, p, 0, i);
    assert(s.take(i) =~= before);
    assert(s.skip(i + p.len()) =~= after);
    lemma_contains_first(after, p);
}

/// Text is ordered by the first character that differs, and a beginning comes
/// before what it begins.
pub proof fn law_text_is_ordered_by_the_first_difference(
    common: Seq<char>,
    x: char,
    y: char,
    a: Seq<char>,
    b: Seq<char>,
)
    requires
        x != y,
    ensures
        precedes(common + seq![x] + a, common + seq![y] + b) == (x < y),
        precedes(common, common + seq![x] + a),
        !precedes(common + seq![x] + a, common),
    decreases common.len(),
{
    let s = common + seq![x] + a;
    let t = common + seq![y] + b;
    if common.len() > 0 {
        let rest = common.skip(1);
        assert(s.skip(1) =~= rest + seq![x] + a);
        assert(t.skip(1) =~= rest + seq![y] + b);
        law_text_is_ordered_by_the_first_difference(rest, x, y, a, b);
    }
}

/// A pattern is found wherever it stands.
pub proof fn law_a_part_is_contained(before: Seq<char>, p: Seq<char>, after: Seq<char>)
    ensures
        contains(before + p + after, p),
        starts_with(p + after, p),
        ends_with(before + p, p),
{
    let i = before.len() as int;
    assert((before + p + after).subrange(i, i + p.len()) =~= p);
    assert(occurs_at(before + p + after, p, i));
    assert((p + after).subrange(0, p.len() as int) =~= p);
    assert((before + p).subrange(i, i + p.len()) =~= p);
}

/// Changing case keeps the length and touches letters of the other case alone:
/// each becomes its counterpart, 32 code points away.
pub proof fn law_case_changes_letters_alone(s: Seq<char>, i: int)
    requires
        0 <= i < s.len(),
    ensures
        ascii_lower(s).len() == s.len(),
        ascii_upper(s).len() == s.len(),
        'A' <= s[i] <= 'Z' ==> ascii_lower(s)[i] as int == s[i] as int + 32 && ascii_upper(s)[i]
            == s[i],
        'a' <= s[i] <= 'z' ==> ascii_upper(s)[i] as int == s[i] as int - 32 && ascii_lower(s)[i]
            == s[i],
        !('A' <= s[i] <= 'Z') && !('a' <= s[i] <= 'z') ==> ascii_lower(s)[i] == s[i]
            && ascii_upper(s)[i] == s[i],
{
}

/// Among the characters of ASCII, tab to return and the blank are whitespace.
pub proof fn law_blanks_are_whitespace(c: char)
    ensures
        (c as int) < 128 ==> (is_space(c) <==> (9 <= c as int <= 13 || c as int == 32)),
        is_digit(c) <==> 48 <= c as int <= 57,
{
}

/// A string without the separator is its own only part.
pub proof fn lemma_one_part(s: Seq<char>, k: Class)
    requires
        forall|i: int| 0 <= i < s.len() ==> !k.holds(#[trigger] s[i]),
    ensures
        split(s, k) == seq![s],
{
    lemma_position(s, k, 0);
}

/// A blank before a string that has none at its ends is trimmed away.
pub proof fn lemma_leading_blank(s: Seq<char>)
    requires
        s.len() > 0,
        !is_space(s[0]),
        !is_space(s.last()),
    ensures
        trim(seq![' '] + s) == s,
        trim(s) == s,
{
    let t = seq![' '] + s;
    assert(t.skip(1) =~= s);
    assert(trim_start(s, Class::Space) == s);
    assert(trim_start(t, Class::Space) == s);
}

/// Separators alone make no word.
pub proof fn lemma_no_words(s: Seq<char>, k: Class)
    requires
        forall|i: int| 0 <= i < s.len() ==> k.holds(#[trigger] s[i]),
    ensures
        words_by(s, k) == Seq::<Seq<char>>::empty(),
    decreases s.len(),
{
    let none: Seq<char> = seq![];
    if s.len() == 0 {
        assert(s =~= none);
        if k.holds(' ') {
            law_words_stand_between_separators(none, ' ', none, none, k);
        } else {
            lemma_one_part(none, k);
            assert(split(none, k).drop_last() =~= seq![]);
            assert(non_empty(split(none, k).drop_last()) =~= seq![]);
        }
    } else {
        let rest = s.skip(1);
        assert forall|i: int| 0 <= i < rest.len() implies k.holds(#[trigger] rest[i]) by {
            assert(rest[i] == s[i + 1]);
        }
        lemma_no_words(rest, k);
        law_words_stand_between_separators(none, s[0], rest, none, k);
        assert(none + seq![s[0]] + rest =~= s);
        assert(Seq::<Seq<char>>::empty() + words_by(rest, k) =~= words_by(rest, k));
    }
}

/// The last place before a bound is the one with none between it and the bound.
pub proof fn lemma_last_place(s: Seq<char>, p: Seq<char>, upto: int, i: int)
    requires
        0 <= i < upto,
        occurs_at(s, p, i),
        forall|j: int| i < j < upto ==> !occurs_at(s, p, j),
    ensures
        last_before(s, p, upto) == Some(i),
    decreases upto,
{
    if i < upto - 1 {
        assert(!occurs_at(s, p, upto - 1));
        lemma_last_place(s, p, upto - 1, i);
    }
}

} // verus!
