//! Feed bodies on which feed-rs's parser is known to return.
//!
//! feed-rs panics on some inputs: it slices the text around an e-mail
//! address one byte beyond the address, which fails next to a character of
//! more than one byte; it unwraps the numbers of MediaRSS and iTunes
//! durations; and it descends recursively into nested MediaRSS and iTunes
//! elements. The bodies described here keep clear of all three: they are
//! read as UTF-8, no character reference or escape spells `@`, every
//! address-like run of bytes around an `@` is bounded by plain ASCII bytes,
//! and neither the MediaRSS nor the iTunes namespace is declared.
use vstd::prelude::*;

use crate::text::chars_of;

verus! {

/// The characters of `p`, one byte each, stand at `i` in `b`.
pub open spec fn ascii_at(b: Seq<u8>, i: int, p: Seq<char>) -> bool {
    &&& 0 <= i
    &&& i + p.len() <= b.len()
    &&& forall|k: int| 0 <= k < p.len() ==> (b[i + k] as u32) == (#[trigger] p[k] as u32)
}

/// The characters of `p`, one byte each, stand somewhere in `b`.
pub open spec fn ascii_occurs(b: Seq<u8>, p: Seq<char>) -> bool {
    exists|i: int| #[trigger] ascii_at(b, i, p)
}

/// The MediaRSS namespace.
pub open spec fn media_rss_namespace() -> Seq<char> {
    "http://search.yahoo.com/mrss/"@
}

/// The iTunes podcast namespace.
pub open spec fn itunes_namespace() -> Seq<char> {
    "http://www.itunes.com/dtds/podcast-1.0.dtd"@
}

/// An encoding label that names UTF-8, with `=` and its quotes, stands at `i`.
pub open spec fn utf8_label_at(b: Seq<u8>, i: int) -> bool {
    ||| ascii_at(b, i, "=\"utf-8\""@)
    ||| ascii_at(b, i, "=\"UTF-8\""@)
    ||| ascii_at(b, i, "='utf-8'"@)
    ||| ascii_at(b, i, "='UTF-8'"@)
}

/// The body is read as UTF-8: it holds no NUL or escape byte, does not start
/// with a UTF-16 byte-order mark, and every `encoding` is followed by a label
/// naming UTF-8.
pub open spec fn read_as_utf8(b: Seq<u8>) -> bool {
    &&& forall|i: int| 0 <= i < b.len() ==> #[trigger] b[i] != 0 && b[i] != 27
    &&& !(b.len() >= 2 && ((b[0] == 254 && b[1] == 255) || (b[0] == 255 && b[1] == 254)))
    &&& forall|i: int| #[trigger] ascii_at(b, i, "encoding"@) ==> utf8_label_at(b, i + 8)
}

/// No character reference spells `@` (a decimal one starting with `0`, `4`
/// or `6`, or a hexadecimal one starting with `0` or `4`, is excluded
/// whatever it spells), and no JSON escape `\u0040` occurs.
pub open spec fn no_at_reference(b: Seq<u8>) -> bool {
    &&& forall|i: int|
        #[trigger] ascii_at(b, i, "&#"@) && i + 2 < b.len() ==> {
            &&& b[i + 2] != 48 && b[i + 2] != 52 && b[i + 2] != 54
            &&& (b[i + 2] == 120 || b[i + 2] == 88) && i + 3 < b.len() ==> b[i + 3] != 48 && b[i
                + 3] != 52
        }
    &&& !ascii_occurs(b, "\\u0040"@)
}

/// An ASCII letter or digit, or one of `._%+-@:<>[]()#;`: a byte that may
/// belong to an e-mail address as feed-rs looks for one, to its delimiters,
/// to a tag or to a character reference.
pub open spec fn address_byte(x: u8) -> bool {
    ||| 48 <= x <= 57
    ||| 65 <= x <= 90
    ||| 97 <= x <= 122
    ||| x == 46 || x == 95 || x == 37 || x == 43 || x == 45 || x == 64 || x == 58
    ||| x == 60 || x == 62 || x == 91 || x == 93 || x == 40 || x == 41 || x == 35 || x == 59
}

/// An ASCII byte other than `&`, `\`, `!` and `?`: no reference, escape,
/// comment, CDATA section or processing instruction starts or ends there.
pub open spec fn plain_border(x: u8) -> bool {
    x < 128 && x != 38 && x != 92 && x != 33 && x != 63
}

/// Every byte from `lo` up to `hi` may belong to an address.
pub open spec fn address_run(b: Seq<u8>, lo: int, hi: int) -> bool {
    forall|m: int| lo <= m < hi ==> address_byte(#[trigger] b[m])
}

/// Left of position `i`, the address-like bytes end at a plain border, and
/// no comment ends among them.
pub open spec fn left_bounded(b: Seq<u8>, i: int) -> bool {
    forall|j: int|
        0 <= j < i && #[trigger] address_run(b, j + 1, i) ==> plain_border(b[j]) && !ascii_at(
            b,
            j,
            "-->"@,
        )
}

/// Right of position `i`, the address-like bytes end at a plain border.
pub open spec fn right_bounded(b: Seq<u8>, i: int) -> bool {
    forall|k: int| i < k < b.len() && #[trigger] address_run(b, i + 1, k) ==> plain_border(b[k])
}

/// Around every `@`, the address-like bytes are bounded as above.
pub open spec fn addresses_bounded(b: Seq<u8>) -> bool {
    forall|i: int| 0 <= i < b.len() && #[trigger] b[i] == 64 ==> left_bounded(b, i) && right_bounded(b, i)
}

/// A feed body on which feed-rs's parser returns.
pub open spec fn safe_feed_body(b: Seq<u8>) -> bool {
    &&& read_as_utf8(b)
    &&& no_at_reference(b)
    &&& addresses_bounded(b)
    &&& !ascii_occurs(b, media_rss_namespace())
    &&& !ascii_occurs(b, itunes_namespace())
}

fn ascii_at_exec(b: &[u8], i: usize, p: &[char]) -> (r: bool)
    ensures
        r == ascii_at(b@, i as int, p@),
{
    let blen = b.len();
    if i > blen || p.len() > blen - i {
        return false;
    }
    let n = p.len();
    let mut k: usize = 0;
    while k < n
        invariant
            n == p@.len(),
            blen == b@.len(),
            i + n <= blen,
            k <= n,
            forall|m: int| 0 <= m < k ==> (b@[i + m] as u32) == (#[trigger] p@[m] as u32),
        decreases n - k,
    {
        let at: usize = i + k;
        let c: char = p[k];
        if (b[at] as u32) != (c as u32) {
            return false;
        }
        k += 1;
    }
    true
}

fn occurs_exec(b: &[u8], p: &[char]) -> (r: bool)
    requires
        p@.len() > 0,
    ensures
        r == ascii_occurs(b@, p@),
{
    let n = b.len();
    let mut i: usize = 0;
    while i < n
        invariant
            n == b@.len(),
            i <= n,
            forall|j: int| 0 <= j < i ==> !#[trigger] ascii_at(b@, j, p@),
        decreases n - i,
    {
        if ascii_at_exec(b, i, p) {
            return true;
        }
        i += 1;
    }
    assert forall|j: int| !#[trigger] ascii_at(b@, j, p@) by {
        if 0 <= j < i {
        }
    }
    false
}

fn is_address_byte(x: u8) -> (r: bool)
    ensures
        r == address_byte(x),
{
    (48 <= x && x <= 57) || (65 <= x && x <= 90) || (97 <= x && x <= 122) || x == 46 || x == 95
        || x == 37 || x == 43 || x == 45 || x == 64 || x == 58 || x == 60 || x == 62 || x == 91
        || x == 93 || x == 40 || x == 41 || x == 35 || x == 59
}

fn is_plain_border(x: u8) -> (r: bool)
    ensures
        r == plain_border(x),
{
    x < 128 && x != 38 && x != 92 && x != 33 && x != 63
}

fn left_ok(b: &[u8], i: usize, closer: &[char]) -> (r: bool)
    requires
        i < b@.len(),
        closer@ == "-->"@,
    ensures
        r == left_bounded(b@, i as int),
{
    let mut j: usize = i;
    while j > 0 && is_address_byte(b[j - 1])
        invariant
            j <= i < b@.len(),
            closer@ == "-->"@,
            address_run(b@, j as int, i as int),
            forall|m: int| j <= m < i ==> !#[trigger] ascii_at(b@, m, "-->"@),
        decreases j,
    {
        if ascii_at_exec(b, j - 1, closer) {
            assert(address_run(b@, (j - 1) + 1, i as int));
            return false;
        }
        j -= 1;
    }
    if j > 0 {
        if !is_plain_border(b[j - 1]) || ascii_at_exec(b, j - 1, closer) {
            assert(address_run(b@, (j - 1) + 1, i as int));
            return false;
        }
    }
    assert forall|jj: int| 0 <= jj < i && #[trigger] address_run(b@, jj + 1, i as int) implies plain_border(
        b@[jj],
    ) && !ascii_at(b@, jj, "-->"@) by {
        if jj < j - 1 {
            assert(address_byte(b@[j - 1]));
        } else if jj >= j {
            assert(address_byte(b@[jj]));
        }
    }
    true
}

fn right_ok(b: &[u8], i: usize) -> (r: bool)
    requires
        i < b@.len(),
    ensures
        r == right_bounded(b@, i as int),
{
    let n = b.len();
    let mut k: usize = i + 1;
    while k < n && is_address_byte(b[k])
        invariant
            n == b@.len(),
            i < k <= n,
            address_run(b@, i + 1, k as int),
        decreases n - k,
    {
        k += 1;
    }
    if k < n && !is_plain_border(b[k]) {
        return false;
    }
    assert forall|kk: int| i < kk < b@.len() && #[trigger] address_run(b@, i + 1, kk) implies plain_border(
        b@[kk],
    ) by {
        if kk > k {
            assert(address_byte(b@[k as int]));
        } else if kk < k {
            assert(address_byte(b@[kk]));
        }
    }
    true
}

fn addresses_bounded_exec(b: &[u8]) -> (r: bool)
    ensures
        r == addresses_bounded(b@),
{
    let closer = chars_of("-->");
    let n = b.len();
    let mut i: usize = 0;
    while i < n
        invariant
            n == b@.len(),
            i <= n,
            closer@ == "-->"@,
            forall|j: int|
                0 <= j < i && #[trigger] b@[j] == 64 ==> left_bounded(b@, j) && right_bounded(b@, j),
        decreases n - i,
    {
        if b[i] == 64 {
            if !left_ok(b, i, closer.as_slice()) || !right_ok(b, i) {
                return false;
            }
        }
        i += 1;
    }
    true
}

fn read_as_utf8_exec(b: &[u8]) -> (r: bool)
    ensures
        r == read_as_utf8(b@),
{
    let enc = chars_of("encoding");
    let l1 = chars_of("=\"utf-8\"");
    let l2 = chars_of("=\"UTF-8\"");
    let l3 = chars_of("='utf-8'");
    let l4 = chars_of("='UTF-8'");
    proof {
        reveal_strlit("encoding");
    }
    let n = b.len();
    let mut i: usize = 0;
    while i < n
        invariant
            n == b@.len(),
            i <= n,
            enc@ == "encoding"@,
            "encoding"@.len() == 8,
            l1@ == "=\"utf-8\""@,
            l2@ == "=\"UTF-8\""@,
            l3@ == "='utf-8'"@,
            l4@ == "='UTF-8'"@,
            forall|j: int| 0 <= j < i ==> #[trigger] b@[j] != 0 && b@[j] != 27,
            forall|j: int| 0 <= j < i && #[trigger] ascii_at(b@, j, "encoding"@) ==> utf8_label_at(b@, j + 8),
        decreases n - i,
    {
        if b[i] == 0 || b[i] == 27 {
            return false;
        }
        if ascii_at_exec(b, i, enc.as_slice()) {
            assert("encoding"@.len() == 8);
            let at: usize = i + 8;
            if !(ascii_at_exec(b, at, l1.as_slice()) || ascii_at_exec(b, at, l2.as_slice()) || ascii_at_exec(
                b,
                at,
                l3.as_slice(),
            ) || ascii_at_exec(b, at, l4.as_slice())) {
                return false;
            }
        }
        i += 1;
    }
    if n >= 2 && ((b[0] == 254 && b[1] == 255) || (b[0] == 255 && b[1] == 254)) {
        return false;
    }
    assert forall|j: int| #[trigger] ascii_at(b@, j, "encoding"@) implies utf8_label_at(b@, j + 8) by {
        if j >= n {
            assert("encoding"@.len() == 8);
        }
    }
    true
}

fn no_at_reference_exec(b: &[u8]) -> (r: bool)
    ensures
        r == no_at_reference(b@),
{
    let amp = chars_of("&#");
    let esc = chars_of("\\u0040");
    proof {
        reveal_strlit("&#");
        reveal_strlit("\\u0040");
    }
    let n = b.len();
    let mut i: usize = 0;
    while i < n
        invariant
            n == b@.len(),
            i <= n,
            amp@ == "&#"@,
            forall|j: int|
                0 <= j < i && #[trigger] ascii_at(b@, j, "&#"@) && j + 2 < b@.len() ==> {
                    &&& b@[j + 2] != 48 && b@[j + 2] != 52 && b@[j + 2] != 54
                    &&& (b@[j + 2] == 120 || b@[j + 2] == 88) && j + 3 < b@.len() ==> b@[j + 3] != 48
                        && b@[j + 3] != 52
                },
        decreases n - i,
    {
        if ascii_at_exec(b, i, amp.as_slice()) && n - i > 2 {
            let c = b[i + 2];
            if c == 48 || c == 52 || c == 54 {
                return false;
            }
            if (c == 120 || c == 88) && n - i > 3 && (b[i + 3] == 48 || b[i + 3] == 52) {
                return false;
            }
        }
        i += 1;
    }
    assert forall|j: int| #[trigger] ascii_at(b@, j, "&#"@) && j + 2 < b@.len() implies {
        &&& b@[j + 2] != 48 && b@[j + 2] != 52 && b@[j + 2] != 54
        &&& (b@[j + 2] == 120 || b@[j + 2] == 88) && j + 3 < b@.len() ==> b@[j + 3] != 48 && b@[j
            + 3] != 52
    } by {
        assert("&#"@.len() == 2);
    }
    !occurs_exec(b, esc.as_slice())
}

/// Whether feed-rs's parser is known to return on the body.
pub fn feed_body_is_safe(body: &[u8]) -> (r: bool)
    ensures
        r == safe_feed_body(body@),
{
    let media = chars_of("http://search.yahoo.com/mrss/");
    let itunes = chars_of("http://www.itunes.com/dtds/podcast-1.0.dtd");
    proof {
        reveal_strlit("http://search.yahoo.com/mrss/");
        reveal_strlit("http://www.itunes.com/dtds/podcast-1.0.dtd");
    }
    read_as_utf8_exec(body) && no_at_reference_exec(body) && addresses_bounded_exec(body)
        && !occurs_exec(body, media.as_slice()) && !occurs_exec(body, itunes.as_slice())
}

} // verus!
