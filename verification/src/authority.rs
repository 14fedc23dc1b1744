//! Where the authority of a link stands, and whether it writes a port.
//!
//! The authority is what follows the scheme and its slashes, up to the
//! path, the query or the fragment: `user@host:port`. A port is written
//! where the authority ends in a colon and digits. This is read off the
//! characters of the link, because a URL once parsed no longer tells a port
//! that was left out from one that is the default of the scheme.

use vstd::prelude::*;
use vstd::string::*;

verus! {

/// What a scan of a link looks for.
#[derive(Debug, Clone, Copy, PartialEq, Eq, Structural)]
pub enum Stop {
    /// The colon that ends the scheme.
    Colon,
    /// The first character after the slashes that follow the scheme.
    PastSlashes,
    /// The character that ends the authority.
    AuthorityEnd,
}

/// Control characters and the space. They count for nothing around an
/// authority and its port.
pub open spec fn is_blank_char(c: char) -> bool {
    c as u32 <= 0x20
}

/// The ten decimal digits.
pub open spec fn is_digit(c: char) -> bool {
    0x30 <= c as u32 <= 0x39
}

/// Whether a scan for `stop` ends at this character.
pub open spec fn stops(stop: Stop, c: char) -> bool {
    match stop {
        Stop::Colon => c == ':',
        Stop::PastSlashes => !(c == '/' || c == '\\' || is_blank_char(c)),
        Stop::AuthorityEnd => c == '/' || c == '\\' || c == '?' || c == '#',
    }
}

/// The first place at or after `from` where a scan for `stop` ends; the
/// length of the text where it ends nowhere.
pub open spec fn first_stop(s: Seq<char>, from: int, stop: Stop) -> int
    decreases s.len() - from,
{
    if from >= s.len() {
        s.len() as int
    } else if stops(stop, s[from]) {
        from
    } else {
        first_stop(s, from + 1, stop)
    }
}

/// Where the authority of a link begins: after the first colon and the
/// slashes that follow it.
pub open spec fn authority_start(s: Seq<char>) -> int {
    first_stop(s, first_stop(s, 0, Stop::Colon) + 1, Stop::PastSlashes)
}

/// Where the authority of a link ends: at the first slash, question mark
/// or hash after its beginning, or with the link.
pub open spec fn authority_end(s: Seq<char>) -> int {
    first_stop(s, authority_start(s), Stop::AuthorityEnd)
}

/// `k` is the place of the colon before the port: a colon in the
/// authority after which nothing but digits follows, and at least one.
/// Blank characters among them do not count.
pub open spec fn port_colon_at(s: Seq<char>, k: int) -> bool {
    &&& authority_start(s) <= k < authority_end(s)
    &&& s[k] == ':'
    &&& forall|j: int|
        k < j < authority_end(s) ==> is_digit(#[trigger] s[j]) || is_blank_char(s[j])
    &&& exists|j: int| k < j < authority_end(s) && is_digit(#[trigger] s[j])
}

/// The link writes a port: its authority ends in a colon and digits.
pub open spec fn writes_port(s: Seq<char>) -> bool {
    exists|k: int| port_colon_at(s, k)
}

/// A scan ends at the first place where it can; it never goes back and
/// never leaves the text.
pub proof fn lemma_first_stop(s: Seq<char>, from: int, stop: Stop, i: int)
    requires
        0 <= from <= i <= s.len(),
        forall|j: int| from <= j < i ==> !stops(stop, #[trigger] s[j]),
        i < s.len() ==> stops(stop, s[i]),
    ensures
        first_stop(s, from, stop) == i,
    decreases i - from,
{
    if from < i {
        assert(!stops(stop, s[from]));
        lemma_first_stop(s, from + 1, stop, i);
    }
}

/// Whether a scan for `stop` ends at this character.
fn stops_at(stop: Stop, c: char) -> (ends: bool)
    ensures
        ends == stops(stop, c),
{
    match stop {
        Stop::Colon => c == ':',
        Stop::PastSlashes => !(c == '/' || c == '\\' || c as u32 <= 0x20),
        Stop::AuthorityEnd => c == '/' || c == '\\' || c == '?' || c == '#',
    }
}

/// Scans a text of `n` characters from `from` on.
fn find_stop(text: &str, n: usize, from: usize, stop: Stop) -> (place: usize)
    requires
        n == text@.len(),
    ensures
        place == first_stop(text@, from as int, stop),
        place <= n,
        from <= n ==> from <= place,
{
    let mut i = from;
    while i < n
        invariant
            n == text@.len(),
            from <= i,
            from <= n ==> i <= n,
            first_stop(text@, i as int, stop) == first_stop(text@, from as int, stop),
        decreases n - i,
    {
        if stops_at(stop, text.get_char(i)) {
            return i;
        }
        i += 1;
    }
    n
}

/// Whether the authority of a link writes a port: whether it ends in a
/// colon and digits.
pub fn port_is_written(link: &str) -> (written: bool)
    ensures
        written == writes_port(link@),
{
    let n = link.unicode_len();
    let colon = find_stop(link, n, 0, Stop::Colon);
    if colon >= n {
        return false;
    }
    let start = find_stop(link, n, colon + 1, Stop::PastSlashes);
    let end = find_stop(link, n, start, Stop::AuthorityEnd);
    let ghost s = link@;
    let mut i = end;
    let mut seen = false;
    let mut going = true;
    while going && i > start
        invariant
            s == link@,
            start == authority_start(s),
            end == authority_end(s),
            start <= i <= end <= s.len(),
            forall|j: int| i <= j < end ==> is_digit(#[trigger] s[j]) || is_blank_char(s[j]),
            seen <==> exists|j: int| i <= j < end && is_digit(#[trigger] s[j]),
            !going ==> i > start && !is_digit(s[i - 1]) && !is_blank_char(s[i - 1]),
        decreases i + (if going { 1int } else { 0int }),
    {
        let c = link.get_char(i - 1) as u32;
        if 0x30 <= c && c <= 0x39 {
            seen = true;
            i -= 1;
            assert(is_digit(s[i as int]));
        } else if c <= 0x20 {
            i -= 1;
        } else {
            going = false;
        }
    }
    let written = i > start && seen && link.get_char(i - 1) == ':';
    proof {
        if written {
            assert(port_colon_at(s, i - 1));
        } else if writes_port(s) {
            let k = choose|k: int| port_colon_at(s, k);
            if k >= i {
                assert(is_digit(s[k]) || is_blank_char(s[k]));
            } else if k < i - 1 {
                assert(is_digit(s[i - 1]) || is_blank_char(s[i - 1]));
            }
        }
    }
    written
}

} // verus!
