//! The key under which a tunnel is registered: its host, a colon, and its
//! port in decimal.

use vstd::prelude::*;
use vstd::string::*;

verus! {

/// The character for a single decimal digit.
pub open spec fn digit(d: int) -> char {
    ((d + 48) as u8) as char
}

/// A number written in decimal, without sign or leading zeros.
pub open spec fn decimal(n: nat) -> Seq<char>
    decreases n,
{
    if n < 10 {
        seq![digit(n as int)]
    } else {
        decimal(n / 10).push(digit((n % 10) as int))
    }
}

/// The registry key of a tunnel to `host` on `port`.
pub open spec fn key_of(host: Seq<char>, port: u16) -> Seq<char> {
    host + seq![':'] + decimal(port as nat)
}

/// A number in decimal has at least one character, and none is a colon.
pub proof fn lemma_decimal_has_no_colon(n: nat)
    ensures
        decimal(n).len() >= 1,
        n >= 10 ==> decimal(n).len() >= 2,
        forall|i: int| 0 <= i < decimal(n).len() ==> decimal(n)[i] != ':',
    decreases n,
{
    if n >= 10 {
        lemma_decimal_has_no_colon(n / 10);
    }
}

/// Different digits have different characters.
pub proof fn lemma_digit_is_injective(a: int, b: int)
    requires
        0 <= a < 10,
        0 <= b < 10,
        digit(a) == digit(b),
    ensures
        a == b,
{
    assert(digit(a) as u32 == a + 48);
    assert(digit(b) as u32 == b + 48);
}

/// Different numbers are written differently.
pub proof fn lemma_decimal_is_injective(a: nat, b: nat)
    requires
        decimal(a) == decimal(b),
    ensures
        a == b,
    decreases a,
{
    lemma_decimal_has_no_colon(a);
    lemma_decimal_has_no_colon(b);
    if a < 10 && b < 10 {
        assert(decimal(a)[0] == digit(a as int));
        assert(decimal(b)[0] == digit(b as int));
        lemma_digit_is_injective(a as int, b as int);
    } else if a >= 10 && b >= 10 {
        let x = decimal(a / 10);
        let y = decimal(b / 10);
        assert(x.push(digit((a % 10) as int)).last() == y.push(digit((b % 10) as int)).last());
        assert(x.push(digit((a % 10) as int)).drop_last() =~= x);
        assert(y.push(digit((b % 10) as int)).drop_last() =~= y);
        lemma_digit_is_injective((a % 10) as int, (b % 10) as int);
        lemma_decimal_is_injective(a / 10, b / 10);
    }
}

/// A key belongs to one host and one port: tunnels with the same key go to
/// the same host and forward the same port.
pub proof fn lemma_key_is_injective(host: Seq<char>, port: u16, other: Seq<char>, other_port: u16)
    requires
        key_of(host, port) == key_of(other, other_port),
    ensures
        host == other,
        port == other_port,
{
    let d = decimal(port as nat);
    let e = decimal(other_port as nat);
    let key = key_of(host, port);
    lemma_decimal_has_no_colon(port as nat);
    lemma_decimal_has_no_colon(other_port as nat);
    assert(key.len() == host.len() + 1 + d.len());
    assert(key.len() == other.len() + 1 + e.len());
    if host.len() < other.len() {
        assert(key_of(other, other_port)[other.len() as int] == ':');
        assert(key[other.len() as int] == d[other.len() - host.len() - 1]);
    } else if other.len() < host.len() {
        assert(key[host.len() as int] == ':');
        assert(key_of(other, other_port)[host.len() as int] == e[host.len() - other.len() - 1]);
    } else {
        assert(host =~= key.subrange(0, host.len() as int));
        assert(other =~= key_of(other, other_port).subrange(0, other.len() as int));
        assert(d =~= key.subrange(host.len() as int + 1, key.len() as int));
        assert(e =~= key_of(other, other_port).subrange(other.len() as int + 1, key.len() as int));
        lemma_decimal_is_injective(port as nat, other_port as nat);
    }
}

/// The text of one decimal digit.
fn digit_str(d: u32) -> (text: &'static str)
    requires
        d < 10,
    ensures
        text@ == seq![digit(d as int)],
{
    proof {
        reveal_strlit("0");
        reveal_strlit("1");
        reveal_strlit("2");
        reveal_strlit("3");
        reveal_strlit("4");
        reveal_strlit("5");
        reveal_strlit("6");
        reveal_strlit("7");
        reveal_strlit("8");
        reveal_strlit("9");
    }
    let text = if d == 0 {
        "0"
    } else if d == 1 {
        "1"
    } else if d == 2 {
        "2"
    } else if d == 3 {
        "3"
    } else if d == 4 {
        "4"
    } else if d == 5 {
        "5"
    } else if d == 6 {
        "6"
    } else if d == 7 {
        "7"
    } else if d == 8 {
        "8"
    } else {
        "9"
    };
    assert(text@ =~= seq![digit(d as int)]);
    text
}

/// Appends a number in decimal to a text.
pub fn push_decimal(text: &mut String, n: u32)
    ensures
        final(text)@ == old(text)@ + decimal(n as nat),
    decreases n,
{
    if n >= 10 {
        push_decimal(text, n / 10);
    }
    text.append(digit_str(n % 10));
    assert(final(text)@ =~= old(text)@ + decimal(n as nat));
}

/// Builds the registry key of a tunnel to `host` on `port`.
pub fn format_key(host: &str, port: u16) -> (key: String)
    ensures
        key@ == key_of(host@, port),
{
    proof {
        reveal_strlit(":");
    }
    let mut key = host.to_string();
    key.append(":");
    push_decimal(&mut key, port as u32);
    assert(key@ =~= key_of(host@, port));
    key
}

} // verus!
