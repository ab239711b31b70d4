//! Character-level text handling: whitespace trimming, splitting, substring
//! search, decimal rendering and joining, each stated over `Seq<char>`.
use vstd::prelude::*;
use vstd::string::*;

verus! {

// ---------------------------------------------------------------------------
// Specifications
// ---------------------------------------------------------------------------

/// Unicode `White_Space`: the characters for which `char::is_whitespace` holds.
pub open spec fn spec_is_whitespace(c: char) -> bool {
    let u = c as u32;
    ||| 0x09 <= u <= 0x0d
    ||| u == 0x20
    ||| u == 0x85
    ||| u == 0xa0
    ||| u == 0x1680
    ||| 0x2000 <= u <= 0x200a
    ||| u == 0x2028
    ||| u == 0x2029
    ||| u == 0x202f
    ||| u == 0x205f
    ||| u == 0x3000
}

/// The text without its leading whitespace.
pub open spec fn trim_start(s: Seq<char>) -> Seq<char>
    decreases s.len(),
{
    if s.len() > 0 && spec_is_whitespace(s[0]) {
        trim_start(s.drop_first())
    } else {
        s
    }
}

/// The text without its trailing whitespace.
pub open spec fn trim_end(s: Seq<char>) -> Seq<char>
    decreases s.len(),
{
    if s.len() > 0 && spec_is_whitespace(s.last()) {
        trim_end(s.drop_last())
    } else {
        s
    }
}

/// The text without leading and trailing whitespace (as `str::trim`).
pub open spec fn trim(s: Seq<char>) -> Seq<char> {
    trim_end(trim_start(s))
}

/// The pieces of `s` between occurrences of `sep` (as `str::split` with a
/// character): `n` separators give `n + 1` pieces, empty ones included.
pub open spec fn split_spec(s: Seq<char>, sep: char) -> Seq<Seq<char>>
    decreases s.len(),
{
    if s.len() == 0 {
        seq![Seq::<char>::empty()]
    } else {
        let r = split_spec(s.drop_last(), sep);
        if s.last() == sep {
            r.push(Seq::<char>::empty())
        } else {
            r.update(r.len() - 1, r.last().push(s.last()))
        }
    }
}

/// `needle` occurs in `hay` at position `i`.
pub open spec fn occurs_at(hay: Seq<char>, needle: Seq<char>, i: int) -> bool {
    0 <= i && i + needle.len() <= hay.len() && hay.subrange(i, i + needle.len()) == needle
}

/// `needle` occurs somewhere in `hay` (as `str::contains`).
pub open spec fn spec_contains(hay: Seq<char>, needle: Seq<char>) -> bool {
    exists|i: int| occurs_at(hay, needle, i)
}

/// `s` begins with `p` (as `str::starts_with`).
pub open spec fn spec_starts_with(s: Seq<char>, p: Seq<char>) -> bool {
    p.len() <= s.len() && s.take(p.len() as int) == p
}

/// `s` without any trailing `c` (as `str::trim_end_matches` with a character).
pub open spec fn trim_end_char(s: Seq<char>, c: char) -> Seq<char>
    decreases s.len(),
{
    if s.len() > 0 && s.last() == c {
        trim_end_char(s.drop_last(), c)
    } else {
        s
    }
}

/// The decimal digit for `d < 10`.
pub open spec fn digit_char(d: nat) -> char {
    if d == 0 { '0' } else if d == 1 { '1' } else if d == 2 { '2' } else if d == 3 { '3' }
    else if d == 4 { '4' } else if d == 5 { '5' } else if d == 6 { '6' } else if d == 7 { '7' }
    else if d == 8 { '8' } else { '9' }
}

/// The decimal representation of `n`, without sign or leading zeros
/// (as `usize`'s `Display`).
pub open spec fn decimal(n: nat) -> Seq<char>
    decreases n,
{
    if n < 10 {
        seq![digit_char(n)]
    } else {
        decimal(n / 10).push(digit_char(n % 10))
    }
}

/// The parts joined with `sep` between consecutive parts (as `[String]::join`).
pub open spec fn join_spec(parts: Seq<Seq<char>>, sep: Seq<char>) -> Seq<char>
    decreases parts.len(),
{
    if parts.len() == 0 {
        Seq::empty()
    } else if parts.len() == 1 {
        parts[0]
    } else {
        join_spec(parts.drop_last(), sep) + sep + parts.last()
    }
}

/// The views of a sequence of strings.
pub open spec fn views(v: Seq<String>) -> Seq<Seq<char>> {
    v.map_values(|s: String| s@)
}

/// The view of an optional string.
pub open spec fn opt_view(o: Option<String>) -> Option<Seq<char>> {
    match o {
        Some(s) => Some(s@),
        None => None,
    }
}

// ---------------------------------------------------------------------------
// Lemmas
// ---------------------------------------------------------------------------

pub proof fn lemma_split_nonempty(s: Seq<char>, sep: char)
    ensures
        split_spec(s, sep).len() >= 1,
    decreases s.len(),
{
    if s.len() > 0 {
        lemma_split_nonempty(s.drop_last(), sep);
    }
}

proof fn lemma_digit_char_injective(a: nat, b: nat)
    requires
        a < 10,
        b < 10,
        digit_char(a) == digit_char(b),
    ensures
        a == b,
{
}

pub proof fn lemma_decimal_nonempty(n: nat)
    ensures
        decimal(n).len() >= 1,
    decreases n,
{
    if n >= 10 {
        lemma_decimal_nonempty(n / 10);
    }
}

/// Distinct numbers have distinct decimal representations.
pub proof fn lemma_decimal_injective(a: nat, b: nat)
    requires
        decimal(a) == decimal(b),
    ensures
        a == b,
    decreases a,
{
    if a < 10 && b < 10 {
        assert(decimal(a)[0] == digit_char(a));
        assert(decimal(b)[0] == digit_char(b));
        lemma_digit_char_injective(a, b);
    } else if a < 10 {
        lemma_decimal_nonempty(b / 10);
        assert(decimal(b).len() >= 2);
    } else if b < 10 {
        lemma_decimal_nonempty(a / 10);
        assert(decimal(a).len() >= 2);
    } else {
        assert(decimal(a).last() == digit_char(a % 10));
        assert(decimal(b).last() == digit_char(b % 10));
        lemma_digit_char_injective(a % 10, b % 10);
        assert(decimal(a).drop_last() =~= decimal(a / 10));
        assert(decimal(b).drop_last() =~= decimal(b / 10));
        lemma_decimal_injective(a / 10, b / 10);
    }
}

// ---------------------------------------------------------------------------
// Trusted std calls
// ---------------------------------------------------------------------------

/// `String::push`: appends one character (std documents that it appends
/// the character to the end of the string).
#[verifier::external_body]
pub(crate) fn push_char(s: &mut String, c: char)
    ensures
        final(s)@ == old(s)@.push(c),
{
    s.push(c);
}

/// The result of `str::to_lowercase`: Unicode lowercase mapping of the whole
/// text (context-dependent for the final Greek sigma), a function of the text alone.
pub uninterp spec fn spec_to_lowercase(s: Seq<char>) -> Seq<char>;

/// `str::to_lowercase`; its result is named `spec_to_lowercase` of the text.
#[verifier::external_body]
pub(crate) fn to_lowercase(s: &str) -> (r: String)
    ensures
        r@ == spec_to_lowercase(s@),
{
    s.to_lowercase()
}

// ---------------------------------------------------------------------------
// Executable functions
// ---------------------------------------------------------------------------

/// The characters of `s`, in order.
pub fn chars_of(s: &str) -> (v: Vec<char>)
    ensures
        v@ == s@,
{
    let mut v: Vec<char> = Vec::new();
    for c in it: s.chars()
        invariant
            v@ == it.seq().take(it.index() as int),
            it.seq() == s@,
    {
        v.push(c);
    }
    v
}

/// Whether two texts are the same.
pub fn same_text(a: &str, b: &str) -> (r: bool)
    ensures
        r == (a@ == b@),
{
    let x = chars_of(a);
    let y = chars_of(b);
    if x.len() != y.len() {
        return false;
    }
    let n = x.len();
    let mut i: usize = 0;
    while i < n
        invariant
            n == x@.len() == y@.len(),
            x@ == a@,
            y@ == b@,
            i <= n,
            forall|k: int| 0 <= k < i ==> x@[k] == y@[k],
        decreases n - i,
    {
        if x[i] != y[i] {
            return false;
        }
        i = i + 1;
    }
    assert(x@ =~= y@);
    true
}

/// A copy of an optional string.
pub fn copy_opt(o: &Option<String>) -> (r: Option<String>)
    ensures
        r == *o,
{
    match o {
        Some(s) => Some(s.clone()),
        None => None,
    }
}

/// A string made of the given characters.
pub fn string_of(chars: &[char]) -> (r: String)
    ensures
        r@ == chars@,
{
    let mut r = String::new();
    let n = chars.len();
    for i in 0..n
        invariant
            n == chars@.len(),
            r@ == chars@.take(i as int),
    {
        push_char(&mut r, chars[i]);
        assert(chars@.take(i + 1) =~= chars@.take(i as int).push(chars@[i as int]));
    }
    assert(chars@.take(n as int) =~= chars@);
    r
}

/// Whether `c` is Unicode whitespace.
pub fn is_whitespace(c: char) -> (r: bool)
    ensures
        r == spec_is_whitespace(c),
{
    let u = c as u32;
    (0x09 <= u && u <= 0x0d) || u == 0x20 || u == 0x85 || u == 0xa0 || u == 0x1680 || (0x2000 <= u
        && u <= 0x200a) || u == 0x2028 || u == 0x2029 || u == 0x202f || u == 0x205f || u == 0x3000
}

/// The characters without leading and trailing whitespace.
pub fn trimmed(s: &[char]) -> (r: Vec<char>)
    ensures
        r@ == trim(s@),
{
    let n = s.len();
    let mut i: usize = 0;
    assert(s@.subrange(0, n as int) =~= s@);
    while i < n && is_whitespace(s[i])
        invariant
            i <= n == s@.len(),
            trim_start(s@) == trim_start(s@.subrange(i as int, n as int)),
        decreases n - i,
    {
        assert(s@.subrange(i as int, n as int).drop_first() =~= s@.subrange(i + 1, n as int));
        i = i + 1;
    }
    assert(trim_start(s@) == s@.subrange(i as int, n as int));
    let mut j: usize = n;
    while j > i && is_whitespace(s[j - 1])
        invariant
            i <= j <= n == s@.len(),
            trim_end(s@.subrange(i as int, n as int)) == trim_end(s@.subrange(i as int, j as int)),
        decreases j - i,
    {
        assert(s@.subrange(i as int, j as int).drop_last() =~= s@.subrange(i as int, j - 1));
        j = j - 1;
    }
    assert(trim_end(s@.subrange(i as int, j as int)) == s@.subrange(i as int, j as int));
    let mut r: Vec<char> = Vec::new();
    let mut k: usize = i;
    while k < j
        invariant
            i <= k <= j <= n == s@.len(),
            r@ == s@.subrange(i as int, k as int),
        decreases j - k,
    {
        r.push(s[k]);
        k = k + 1;
    }
    r
}

/// The pieces of `s` between occurrences of `sep`.
pub fn split_chars(s: &[char], sep: char) -> (r: Vec<Vec<char>>)
    ensures
        r@.map_values(|p: Vec<char>| p@) == split_spec(s@, sep),
{
    let n = s.len();
    let mut done: Vec<Vec<char>> = Vec::new();
    let mut cur: Vec<char> = Vec::new();
    for i in 0..n
        invariant
            n == s@.len(),
            done@.map_values(|p: Vec<char>| p@).push(cur@) == split_spec(s@.take(i as int), sep),
    {
        let ghost prev = s@.take(i as int);
        assert(s@.take(i + 1).drop_last() =~= prev);
        assert(s@.take(i + 1).last() == s@[i as int]);
        proof {
            lemma_split_nonempty(prev, sep);
        }
        let c = s[i];
        if c == sep {
            let piece = cur;
            done.push(piece);
            cur = Vec::new();
            assert(done@.map_values(|p: Vec<char>| p@) =~= split_spec(prev, sep));
        } else {
            cur.push(c);
            assert(done@.map_values(|p: Vec<char>| p@).push(cur@) =~= split_spec(prev, sep).update(
                split_spec(prev, sep).len() - 1,
                split_spec(prev, sep).last().push(c),
            ));
        }
    }
    assert(s@.take(n as int) =~= s@);
    done.push(cur);
    assert(done@.map_values(|p: Vec<char>| p@) =~= split_spec(s@, sep));
    done
}

/// Whether `needle` occurs in `hay`.
pub fn contains_chars(hay: &[char], needle: &[char]) -> (r: bool)
    ensures
        r == spec_contains(hay@, needle@),
{
    let n = hay.len();
    let m = needle.len();
    if m > n {
        assert forall|i: int| !occurs_at(hay@, needle@, i) by {}
        return false;
    }
    let mut i: usize = 0;
    while i <= n - m
        invariant
            m <= n,
            n == hay@.len(),
            m == needle@.len(),
            forall|k: int| 0 <= k < i ==> !occurs_at(hay@, needle@, k),
        decreases n - m + 1 - i,
    {
        let mut j: usize = 0;
        let mut same = true;
        while j < m
            invariant
                m <= n,
                n == hay@.len(),
                m == needle@.len(),
                i <= n - m,
                j <= m,
                same == (forall|k: int| 0 <= k < j ==> hay@[i + k] == needle@[k]),
            decreases m - j,
        {
            if hay[i + j] != needle[j] {
                same = false;
            }
            j = j + 1;
        }
        if same {
            assert(hay@.subrange(i as int, i + m) =~= needle@);
            assert(occurs_at(hay@, needle@, i as int));
            return true;
        }
        assert(!occurs_at(hay@, needle@, i as int)) by {
            if occurs_at(hay@, needle@, i as int) {
                assert forall|k: int| 0 <= k < m implies hay@[i + k] == needle@[k] by {
                    assert(hay@.subrange(i as int, i + m)[k] == hay@[i + k]);
                }
            }
        }
        i = i + 1;
    }
    assert forall|k: int| !occurs_at(hay@, needle@, k) by {
        if 0 <= k && k + m <= n {
            assert(k < i);
        }
    }
    false
}

/// Whether `s` begins with `p`.
pub fn starts_with_chars(s: &[char], p: &[char]) -> (r: bool)
    ensures
        r == spec_starts_with(s@, p@),
{
    if p.len() > s.len() {
        return false;
    }
    let m = p.len();
    let mut j: usize = 0;
    while j < m
        invariant
            m == p@.len(),
            m <= s@.len(),
            j <= m,
            forall|k: int| 0 <= k < j ==> s@[k] == p@[k],
        decreases m - j,
    {
        if s[j] != p[j] {
            assert(s@.take(m as int)[j as int] != p@[j as int]);
            return false;
        }
        j = j + 1;
    }
    assert(s@.take(m as int) =~= p@);
    true
}

/// `s` without its trailing occurrences of `c`.
pub fn trim_end_matching(s: &[char], c: char) -> (r: Vec<char>)
    ensures
        r@ == trim_end_char(s@, c),
{
    let n = s.len();
    let mut j: usize = n;
    assert(s@.take(n as int) =~= s@);
    while j > 0 && s[j - 1] == c
        invariant
            j <= n == s@.len(),
            trim_end_char(s@, c) == trim_end_char(s@.take(j as int), c),
        decreases j,
    {
        assert(s@.take(j as int).drop_last() =~= s@.take(j - 1));
        j = j - 1;
    }
    assert(trim_end_char(s@.take(j as int), c) == s@.take(j as int));
    let mut r: Vec<char> = Vec::new();
    let mut k: usize = 0;
    while k < j
        invariant
            k <= j <= n == s@.len(),
            r@ == s@.take(k as int),
        decreases j - k,
    {
        r.push(s[k]);
        assert(s@.take(k + 1) =~= s@.take(k as int).push(s@[k as int]));
        k = k + 1;
    }
    r
}

/// The first `limit` characters of `s` (all of them if it is shorter).
pub fn take_chars(s: &str, limit: usize) -> (r: String)
    ensures
        r@ == s@.take(if s@.len() < limit { s@.len() as int } else { limit as int }),
{
    let cs = chars_of(s);
    let end = if cs.len() < limit { cs.len() } else { limit };
    let mut r = String::new();
    let mut k: usize = 0;
    while k < end
        invariant
            k <= end <= cs@.len(),
            cs@ == s@,
            r@ == s@.take(k as int),
        decreases end - k,
    {
        push_char(&mut r, cs[k]);
        assert(s@.take(k + 1) =~= s@.take(k as int).push(s@[k as int]));
        k = k + 1;
    }
    r
}

/// The decimal digit character for `d < 10`.
fn digit(d: usize) -> (c: char)
    requires
        d < 10,
    ensures
        c == digit_char(d as nat),
{
    if d == 0 { '0' } else if d == 1 { '1' } else if d == 2 { '2' } else if d == 3 { '3' }
    else if d == 4 { '4' } else if d == 5 { '5' } else if d == 6 { '6' } else if d == 7 { '7' }
    else if d == 8 { '8' } else { '9' }
}

/// The decimal representation of `n`.
pub fn decimal_string(n: usize) -> (r: String)
    ensures
        r@ == decimal(n as nat),
    decreases n,
{
    if n < 10 {
        let mut r = String::new();
        push_char(&mut r, digit(n));
        assert(r@ =~= decimal(n as nat));
        r
    } else {
        let mut r = decimal_string(n / 10);
        push_char(&mut r, digit(n % 10));
        r
    }
}

/// `parts` joined with `sep`.
pub fn join_strings(parts: &[String], sep: &str) -> (r: String)
    ensures
        r@ == join_spec(views(parts@), sep@),
{
    let mut r = String::new();
    let n = parts.len();
    let ghost vs = views(parts@);
    for i in 0..n
        invariant
            n == parts@.len(),
            vs == views(parts@),
            r@ == join_spec(vs.take(i as int), sep@),
    {
        assert(vs.take(i + 1).drop_last() =~= vs.take(i as int));
        if i != 0 {
            r.append(sep);
        }
        r.append(parts[i].as_str());
        assert(vs.take(i + 1).last() == parts@[i as int]@);
        if i == 0 {
            assert(vs.take(1)[0] == parts@[0]@);
            assert(r@ =~= join_spec(vs.take(1), sep@));
        }
    }
    assert(vs.take(n as int) =~= vs);
    r
}

/// Trimming `c` from the end leaves a text that does not end in `c`, and
/// what was taken off is `c` repeated.
pub proof fn lemma_trim_end_char(s: Seq<char>, c: char)
    ensures
        trim_end_char(s, c).len() == 0 || trim_end_char(s, c).last() != c,
        trim_end_char(s, c).len() <= s.len(),
        s.take(trim_end_char(s, c).len() as int) == trim_end_char(s, c),
        forall|i: int| trim_end_char(s, c).len() <= i < s.len() ==> s[i] == c,
    decreases s.len(),
{
    if s.len() > 0 && s.last() == c {
        let d = s.drop_last();
        lemma_trim_end_char(d, c);
        let t = trim_end_char(d, c);
        assert(s.take(t.len() as int) =~= d.take(t.len() as int));
        assert forall|i: int| t.len() <= i < s.len() implies s[i] == c by {
            if i < d.len() {
                assert(s[i] == d[i]);
            }
        }
    } else {
        assert(s.take(s.len() as int) =~= s);
    }
}

} // verus!
