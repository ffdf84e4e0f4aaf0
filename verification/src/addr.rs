//! IPv4 addresses as 32-bit values: octet decomposition, conversion to the
//! byte order expected by the network, and the dotted-decimal literal form
//! (parsing and formatting).

use vstd::prelude::*;
use vstd::string::{StrSliceExecFns, StringExecFns};

verus! {

/// The value of an IPv4 address whose octets, highest first, are `a.b.c.d`.
pub open spec fn ipv4_from_octets(a: nat, b: nat, c: nat, d: nat) -> nat {
    a * 0x1000000 + b * 0x10000 + c * 0x100 + d
}

/// Highest octet of an address value (the `a` of `a.b.c.d`).
pub open spec fn oct3(v: u32) -> nat {
    (v as nat) / 0x1000000
}

pub open spec fn oct2(v: u32) -> nat {
    ((v as nat) / 0x10000) % 0x100
}

pub open spec fn oct1(v: u32) -> nat {
    ((v as nat) / 0x100) % 0x100
}

/// Lowest octet of an address value (the `d` of `a.b.c.d`).
pub open spec fn oct0(v: u32) -> nat {
    (v as nat) % 0x100
}

/// The same address with its four octets reversed: the representation a
/// little-endian host hands to a network interface that expects the
/// highest octet in the first byte.
pub open spec fn network_order(v: u32) -> nat {
    ipv4_from_octets(oct0(v), oct1(v), oct2(v), oct3(v))
}

proof fn lemma_octet_bounds(v: u32)
    ensures
        oct3(v) <= 255,
        oct2(v) <= 255,
        oct1(v) <= 255,
        oct0(v) <= 255,
{
}

/// Recombining the four octets of a value gives the value back.
pub proof fn lemma_octets_recompose(v: u32)
    ensures
        ipv4_from_octets(oct3(v), oct2(v), oct1(v), oct0(v)) == v as nat,
{
}

/// Extracting the octets of a recombined value gives the parts back.
pub proof fn lemma_octets_extract(a: nat, b: nat, c: nat, d: nat)
    requires
        a <= 255,
        b <= 255,
        c <= 255,
        d <= 255,
    ensures
        ipv4_from_octets(a, b, c, d) <= u32::MAX,
        oct3(ipv4_from_octets(a, b, c, d) as u32) == a,
        oct2(ipv4_from_octets(a, b, c, d) as u32) == b,
        oct1(ipv4_from_octets(a, b, c, d) as u32) == c,
        oct0(ipv4_from_octets(a, b, c, d) as u32) == d,
{
}

/// The four octets of `v`, highest first.
pub fn octets(v: u32) -> (r: (u8, u8, u8, u8))
    ensures
        r.0 as nat == oct3(v),
        r.1 as nat == oct2(v),
        r.2 as nat == oct1(v),
        r.3 as nat == oct0(v),
{
    let b3: u32 = v / 0x1000000;
    let b2: u32 = (v / 0x10000) % 0x100;
    let b1: u32 = (v / 0x100) % 0x100;
    let b0: u32 = v % 0x100;
    (b3 as u8, b2 as u8, b1 as u8, b0 as u8)
}

/// Combines four octets, highest first, into an address value.
pub fn from_octets(a: u8, b: u8, c: u8, d: u8) -> (r: u32)
    ensures
        r as nat == ipv4_from_octets(a as nat, b as nat, c as nat, d as nat),
{
    (a as u32) * 0x1000000 + (b as u32) * 0x10000 + (c as u32) * 0x100 + (d as u32)
}

/// Reverses the octet order of an address value, turning the host-order
/// value into the form a little-endian machine passes to the network (and
/// back: the conversion is its own inverse).
pub fn to_network_order(v: u32) -> (r: u32)
    ensures
        r as nat == network_order(v),
{
    proof {
        lemma_octet_bounds(v);
    }
    let (b3, b2, b1, b0) = octets(v);
    from_octets(b0, b1, b2, b3)
}

/// Converting to network order twice gives the original value back.
pub proof fn lemma_network_order_involutive(v: u32)
    ensures
        network_order(v) <= u32::MAX,
        network_order(network_order(v) as u32) == v as nat,
{
    lemma_octet_bounds(v);
    lemma_octets_extract(oct0(v), oct1(v), oct2(v), oct3(v));
    lemma_octets_recompose(v);
}

/// `c` is a decimal digit.
pub open spec fn is_digit(c: char) -> bool {
    48 <= c as u32 && c as u32 <= 57
}

/// The digit character for a value below ten.
pub open spec fn digit_char(d: nat) -> char {
    ((48 + d) as u8) as char
}

/// The canonical decimal numeral of `n`: digits only, no leading zero.
pub open spec fn dec_text(n: nat) -> Seq<char>
    decreases n,
{
    if n < 10 {
        seq![digit_char(n)]
    } else {
        dec_text(n / 10).push(digit_char(n % 10))
    }
}

/// The length of the canonical numeral of an octet value.
pub open spec fn dec_len(n: nat) -> nat {
    if n < 10 {
        1
    } else if n < 100 {
        2
    } else {
        3
    }
}

/// The canonical dotted-decimal literal of the address value `v`.
pub open spec fn ipv4_text(v: u32) -> Seq<char> {
    dec_text(oct3(v)) + seq!['.'] + dec_text(oct2(v)) + seq!['.'] + dec_text(oct1(v)) + seq!['.']
        + dec_text(oct0(v))
}

/// `s` spells an IPv4 address in dotted-decimal form: four octet values,
/// each written as its canonical numeral, separated by dots.
pub open spec fn is_ipv4_literal(s: Seq<char>) -> bool {
    exists|v: u32| s == ipv4_text(v)
}

/// The address value spelled by an IPv4 literal.
pub open spec fn ipv4_value(s: Seq<char>) -> u32 {
    choose|v: u32| s == ipv4_text(v)
}

/// The canonical numeral of an octet value: its explicit digits, length,
/// digit-ness, and absence of a leading zero.
proof fn lemma_dec_text_shape(n: nat)
    requires
        n <= 255,
    ensures
        dec_text(n).len() == dec_len(n),
        forall|i: int| 0 <= i < dec_text(n).len() ==> is_digit(#[trigger] dec_text(n)[i]),
        n < 10 ==> dec_text(n) == seq![digit_char(n)],
        10 <= n < 100 ==> dec_text(n) == seq![digit_char(n / 10), digit_char(n % 10)],
        100 <= n ==> dec_text(n) == seq![
            digit_char(n / 100),
            digit_char((n / 10) % 10),
            digit_char(n % 10),
        ],
        n >= 10 ==> dec_text(n)[0] != '0',
{
    if n < 10 {
        assert(dec_text(n) == seq![digit_char(n)]);
    } else if n < 100 {
        assert(n / 10 < 10);
        assert(dec_text(n / 10) == seq![digit_char(n / 10)]);
        assert(dec_text(n) =~= seq![digit_char(n / 10), digit_char(n % 10)]);
        assert(n / 10 >= 1);
        assert(digit_char(n / 10) as u32 == 48 + n / 10);
        assert(dec_text(n)[0] != '0');
    } else {
        assert(10 <= n / 10 < 100);
        assert((n / 10) / 10 == n / 100) by {
            vstd::arithmetic::div_mod::lemma_div_denominator(n as int, 10, 10);
        }
        assert(n / 100 < 10);
        assert(dec_text(n / 100) == seq![digit_char(n / 100)]);
        assert(dec_text(n / 10) == dec_text(n / 100).push(digit_char((n / 10) % 10)));
        assert(dec_text(n / 10) =~= seq![digit_char(n / 100), digit_char((n / 10) % 10)]);
        assert(dec_text(n) =~= seq![
            digit_char(n / 100),
            digit_char((n / 10) % 10),
            digit_char(n % 10),
        ]);
        assert(n / 100 >= 1);
        assert(digit_char(n / 100) as u32 == 48 + n / 100);
        assert(dec_text(n)[0] != '0');
    }
}

/// Two octet values with the same canonical numeral are equal.
proof fn lemma_dec_text_injective(n1: nat, n2: nat)
    requires
        n1 <= 255,
        n2 <= 255,
        dec_text(n1) == dec_text(n2),
    ensures
        n1 == n2,
{
    lemma_dec_text_shape(n1);
    lemma_dec_text_shape(n2);
    if n1 < 10 {
        assert(dec_text(n1)[0] == digit_char(n1));
        assert(digit_char(n1) as u32 == 48 + n1);
        assert(digit_char(n2) as u32 == 48 + n2);
    } else if n1 < 100 {
        assert(digit_char(n1 / 10) as u32 == 48 + n1 / 10);
        assert(digit_char(n1 % 10) as u32 == 48 + n1 % 10);
        assert(digit_char(n2 / 10) as u32 == 48 + n2 / 10);
        assert(digit_char(n2 % 10) as u32 == 48 + n2 % 10);
        assert(n1 / 10 == n2 / 10 && n1 % 10 == n2 % 10);
    } else {
        assert(digit_char(n1 / 100) as u32 == 48 + n1 / 100);
        assert(digit_char((n1 / 10) % 10) as u32 == 48 + (n1 / 10) % 10);
        assert(digit_char(n1 % 10) as u32 == 48 + n1 % 10);
        assert(digit_char(n2 / 100) as u32 == 48 + n2 / 100);
        assert(digit_char((n2 / 10) % 10) as u32 == 48 + (n2 / 10) % 10);
        assert(digit_char(n2 % 10) as u32 == 48 + n2 % 10);
        assert(n1 / 100 == n2 / 100 && (n1 / 10) % 10 == (n2 / 10) % 10 && n1 % 10 == n2 % 10);
        assert(n1 / 10 == 10 * (n1 / 100) + (n1 / 10) % 10) by {
            vstd::arithmetic::div_mod::lemma_div_denominator(n1 as int, 10, 10);
        }
        assert(n2 / 10 == 10 * (n2 / 100) + (n2 / 10) % 10) by {
            vstd::arithmetic::div_mod::lemma_div_denominator(n2 as int, 10, 10);
        }
    }
}

/// Where each of the four parts of a dotted-decimal literal stands in the
/// whole: the groups as subranges, the dots at the positions that the group
/// lengths determine.
proof fn lemma_ipv4_text_parts(v: u32)
    ensures
        ipv4_text(v).len() == dec_len(oct3(v)) + dec_len(oct2(v)) + dec_len(oct1(v)) + dec_len(
            oct0(v),
        ) + 3,
        7 <= ipv4_text(v).len() <= 15,
        ipv4_text(v).subrange(0, dec_len(oct3(v)) as int) == dec_text(oct3(v)),
        ipv4_text(v)[dec_len(oct3(v)) as int] == '.',
        ipv4_text(v).subrange(
            dec_len(oct3(v)) as int + 1,
            dec_len(oct3(v)) as int + 1 + dec_len(oct2(v)) as int,
        ) == dec_text(oct2(v)),
        ipv4_text(v)[dec_len(oct3(v)) as int + 1 + dec_len(oct2(v)) as int] == '.',
        ipv4_text(v).subrange(
            dec_len(oct3(v)) as int + dec_len(oct2(v)) as int + 2,
            dec_len(oct3(v)) as int + dec_len(oct2(v)) as int + 2 + dec_len(oct1(v)) as int,
        ) == dec_text(oct1(v)),
        ipv4_text(v)[dec_len(oct3(v)) as int + dec_len(oct2(v)) as int + 2 + dec_len(oct1(v)) as int] == '.',
        ipv4_text(v).subrange(
            dec_len(oct3(v)) as int + dec_len(oct2(v)) as int + dec_len(oct1(v)) as int + 3,
            ipv4_text(v).len() as int,
        ) == dec_text(oct0(v)),
{
    lemma_octet_bounds(v);
    lemma_dec_text_shape(oct3(v));
    lemma_dec_text_shape(oct2(v));
    lemma_dec_text_shape(oct1(v));
    lemma_dec_text_shape(oct0(v));
    let a = dec_text(oct3(v));
    let b = dec_text(oct2(v));
    let c = dec_text(oct1(v));
    let d = dec_text(oct0(v));
    let la = dec_len(oct3(v)) as int;
    let lb = dec_len(oct2(v)) as int;
    let lc = dec_len(oct1(v)) as int;
    let u1 = a + seq!['.'];
    let u2 = u1 + b;
    let u3 = u2 + seq!['.'];
    let u4 = u3 + c;
    let u5 = u4 + seq!['.'];
    let s = u5 + d;
    assert(s == ipv4_text(v));
    assert(s.subrange(0, la) =~= a) by {
        assert forall|k: int| 0 <= k < la implies s.subrange(0, la)[k] == a[k] by {
            assert(s.subrange(0, la)[k] == s[k]);
            assert(s[k] == u5[k]);
            assert(u5[k] == u4[k]);
            assert(u4[k] == u3[k]);
            assert(u3[k] == u2[k]);
            assert(u2[k] == u1[k]);
            assert(u1[k] == a[k]);
        }
    }
    assert(s[la] == '.') by {
        assert(s[la] == u5[la]);
        assert(u5[la] == u4[la]);
        assert(u4[la] == u3[la]);
        assert(u3[la] == u2[la]);
        assert(u2[la] == u1[la]);
        assert(u1[la] == seq!['.'][0]);
    }
    assert(s.subrange(la + 1, la + 1 + lb) =~= b) by {
        assert forall|k: int| 0 <= k < lb implies s.subrange(la + 1, la + 1 + lb)[k] == b[k] by {
            assert(s.subrange(la + 1, la + 1 + lb)[k] == s[la + 1 + k]);
            assert(s[la + 1 + k] == u5[la + 1 + k]);
            assert(u5[la + 1 + k] == u4[la + 1 + k]);
            assert(u4[la + 1 + k] == u3[la + 1 + k]);
            assert(u3[la + 1 + k] == u2[la + 1 + k]);
            assert(u2[la + 1 + k] == b[k]);
        }
    }
    assert(s[la + 1 + lb] == '.') by {
        assert(s[la + 1 + lb] == u5[la + 1 + lb]);
        assert(u5[la + 1 + lb] == u4[la + 1 + lb]);
        assert(u4[la + 1 + lb] == u3[la + 1 + lb]);
        assert(u3[la + 1 + lb] == seq!['.'][0]);
    }
    assert(s.subrange(la + lb + 2, la + lb + 2 + lc) =~= c) by {
        assert forall|k: int| 0 <= k < lc implies s.subrange(la + lb + 2, la + lb + 2 + lc)[k]
            == c[k] by {
            assert(s.subrange(la + lb + 2, la + lb + 2 + lc)[k] == s[la + lb + 2 + k]);
            assert(s[la + lb + 2 + k] == u5[la + lb + 2 + k]);
            assert(u5[la + lb + 2 + k] == u4[la + lb + 2 + k]);
            assert(u4[la + lb + 2 + k] == c[k]);
        }
    }
    assert(s[la + lb + 2 + lc] == '.') by {
        assert(s[la + lb + 2 + lc] == u5[la + lb + 2 + lc]);
        assert(u5[la + lb + 2 + lc] == seq!['.'][0]);
    }
    assert(s.subrange(la + lb + lc + 3, s.len() as int) =~= d) by {
        assert forall|k: int| 0 <= k < d.len() implies s.subrange(la + lb + lc + 3, s.len() as int)[k]
            == d[k] by {
            assert(s.subrange(la + lb + lc + 3, s.len() as int)[k] == s[la + lb + lc + 3 + k]);
            assert(s[la + lb + lc + 3 + k] == d[k]);
        }
    }
}

/// Two address values with the same dotted-decimal text are equal: the
/// literal form determines the address.
proof fn lemma_ipv4_text_injective(v1: u32, v2: u32)
    requires
        ipv4_text(v1) == ipv4_text(v2),
    ensures
        v1 == v2,
{
    lemma_octet_bounds(v1);
    lemma_octet_bounds(v2);
    lemma_ipv4_text_parts(v1);
    lemma_ipv4_text_parts(v2);
    lemma_dec_text_shape(oct3(v1));
    lemma_dec_text_shape(oct2(v1));
    lemma_dec_text_shape(oct1(v1));
    lemma_dec_text_shape(oct0(v1));
    lemma_dec_text_shape(oct3(v2));
    lemma_dec_text_shape(oct2(v2));
    lemma_dec_text_shape(oct1(v2));
    lemma_dec_text_shape(oct0(v2));
    let s = ipv4_text(v1);
    let la1 = dec_len(oct3(v1)) as int;
    let la2 = dec_len(oct3(v2)) as int;
    assert(la1 == la2) by {
        if la1 < la2 {
            assert(s[la1] == '.');
            assert(s.subrange(0, la2)[la1] == dec_text(oct3(v2))[la1]);
            assert(s[la1] == s.subrange(0, la2)[la1]);
            assert(is_digit(s[la1]));
            assert(false);
        }
        if la2 < la1 {
            assert(s[la2] == '.');
            assert(s.subrange(0, la1)[la2] == dec_text(oct3(v1))[la2]);
            assert(s[la2] == s.subrange(0, la1)[la2]);
            assert(is_digit(s[la2]));
            assert(false);
        }
    }
    assert(oct3(v1) == oct3(v2)) by {
        lemma_dec_text_injective(oct3(v1), oct3(v2));
    }
    let lb1 = dec_len(oct2(v1)) as int;
    let lb2 = dec_len(oct2(v2)) as int;
    assert(lb1 == lb2) by {
        if lb1 < lb2 {
            assert(s[la1 + 1 + lb1] == '.');
            assert(s.subrange(la1 + 1, la1 + 1 + lb2)[lb1] == dec_text(oct2(v2))[lb1]);
            assert(s[la1 + 1 + lb1] == s.subrange(la1 + 1, la1 + 1 + lb2)[lb1]);
            assert(is_digit(s[la1 + 1 + lb1]));
            assert(false);
        }
        if lb2 < lb1 {
            assert(s[la1 + 1 + lb2] == '.');
            assert(s.subrange(la1 + 1, la1 + 1 + lb1)[lb2] == dec_text(oct2(v1))[lb2]);
            assert(s[la1 + 1 + lb2] == s.subrange(la1 + 1, la1 + 1 + lb1)[lb2]);
            assert(is_digit(s[la1 + 1 + lb2]));
            assert(false);
        }
    }
    assert(oct2(v1) == oct2(v2)) by {
        lemma_dec_text_injective(oct2(v1), oct2(v2));
    }
    let lc1 = dec_len(oct1(v1)) as int;
    let lc2 = dec_len(oct1(v2)) as int;
    assert(lc1 == lc2) by {
        if lc1 < lc2 {
            assert(s[la1 + lb1 + 2 + lc1] == '.');
            assert(s.subrange(la1 + lb1 + 2, la1 + lb1 + 2 + lc2)[lc1] == dec_text(oct1(v2))[lc1]);
            assert(s[la1 + lb1 + 2 + lc1] == s.subrange(la1 + lb1 + 2, la1 + lb1 + 2 + lc2)[lc1]);
            assert(is_digit(s[la1 + lb1 + 2 + lc1]));
            assert(false);
        }
        if lc2 < lc1 {
            assert(s[la1 + lb1 + 2 + lc2] == '.');
            assert(s.subrange(la1 + lb1 + 2, la1 + lb1 + 2 + lc1)[lc2] == dec_text(oct1(v1))[lc2]);
            assert(s[la1 + lb1 + 2 + lc2] == s.subrange(la1 + lb1 + 2, la1 + lb1 + 2 + lc1)[lc2]);
            assert(is_digit(s[la1 + lb1 + 2 + lc2]));
            assert(false);
        }
    }
    assert(oct1(v1) == oct1(v2)) by {
        lemma_dec_text_injective(oct1(v1), oct1(v2));
    }
    assert(oct0(v1) == oct0(v2)) by {
        assert(dec_text(oct0(v1)) == s.subrange(la1 + lb1 + lc1 + 3, s.len() as int));
        assert(dec_text(oct0(v2)) == s.subrange(la1 + lb1 + lc1 + 3, s.len() as int));
        lemma_dec_text_injective(oct0(v1), oct0(v2));
    }
    lemma_octets_recompose(v1);
    lemma_octets_recompose(v2);
}

/// Formatting an address and reading the literal back: the dotted-decimal
/// text of `v` is an IPv4 literal, and it spells `v` and no other value.
pub proof fn lemma_text_round_trip(v: u32)
    ensures
        is_ipv4_literal(ipv4_text(v)),
        ipv4_value(ipv4_text(v)) == v,
{
    assert(ipv4_text(v) == ipv4_text(v));
    assert(is_ipv4_literal(ipv4_text(v)));
    let w = ipv4_value(ipv4_text(v));
    assert(ipv4_text(v) == ipv4_text(w));
    lemma_ipv4_text_injective(v, w);
}

/// The one-character text of a digit value.
fn digit_str(d: u8) -> (r: &'static str)
    requires
        d < 10,
    ensures
        r@ == seq![digit_char(d as nat)],
{
    if d == 0 {
        proof { reveal_strlit("0"); assert("0"@ =~= seq![digit_char(0)]); }
        "0"
    } else if d == 1 {
        proof { reveal_strlit("1"); assert("1"@ =~= seq![digit_char(1)]); }
        "1"
    } else if d == 2 {
        proof { reveal_strlit("2"); assert("2"@ =~= seq![digit_char(2)]); }
        "2"
    } else if d == 3 {
        proof { reveal_strlit("3"); assert("3"@ =~= seq![digit_char(3)]); }
        "3"
    } else if d == 4 {
        proof { reveal_strlit("4"); assert("4"@ =~= seq![digit_char(4)]); }
        "4"
    } else if d == 5 {
        proof { reveal_strlit("5"); assert("5"@ =~= seq![digit_char(5)]); }
        "5"
    } else if d == 6 {
        proof { reveal_strlit("6"); assert("6"@ =~= seq![digit_char(6)]); }
        "6"
    } else if d == 7 {
        proof { reveal_strlit("7"); assert("7"@ =~= seq![digit_char(7)]); }
        "7"
    } else if d == 8 {
        proof { reveal_strlit("8"); assert("8"@ =~= seq![digit_char(8)]); }
        "8"
    } else {
        proof { reveal_strlit("9"); assert("9"@ =~= seq![digit_char(9)]); }
        "9"
    }
}

/// The canonical decimal numeral of an octet value.
fn octet_str(n: u8) -> (r: String)
    ensures
        r@ == dec_text(n as nat),
{
    proof {
        lemma_dec_text_shape(n as nat);
    }
    if n < 10 {
        let s = digit_str(n).to_owned();
        proof { assert(s@ =~= dec_text(n as nat)); }
        s
    } else if n < 100 {
        let mut s = digit_str(n / 10).to_owned();
        s.append(digit_str(n % 10));
        proof { assert(s@ =~= dec_text(n as nat)); }
        s
    } else {
        let mut s = digit_str(n / 100).to_owned();
        s.append(digit_str((n / 10) % 10));
        s.append(digit_str(n % 10));
        proof { assert(s@ =~= dec_text(n as nat)); }
        s
    }
}

/// Writes an address value in its dotted-decimal form.
pub fn format_ipv4(v: u32) -> (r: String)
    ensures
        r@ == ipv4_text(v),
{
    proof {
        lemma_octet_bounds(v);
        reveal_strlit(".");
        assert("."@ =~= seq!['.']);
    }
    let (a, b, c, d) = octets(v);
    let mut s = octet_str(a);
    s.append(".");
    let sb = octet_str(b);
    s.append(sb.as_str());
    s.append(".");
    let sc = octet_str(c);
    s.append(sc.as_str());
    s.append(".");
    let sd = octet_str(d);
    s.append(sd.as_str());
    proof {
        assert(s@ == ipv4_text(v));
    }
    s
}

/// Whether the character at `i` is a decimal digit.
fn digit_at(s: &str, i: usize) -> (b: bool)
    requires
        i < s@.len(),
    ensures
        b == is_digit(s@[i as int]),
{
    let u = s.get_char(i) as u32;
    48 <= u && u <= 57
}

/// Scans the octet group that starts at `start`: succeeds exactly when a
/// canonical octet numeral stands there and the run of digits it begins
/// ends with the string or at a non-digit.
fn scan_octet(s: &str, start: usize, n: usize) -> (r: Option<(u8, usize)>)
    requires
        n == s@.len(),
        n <= 15,
        start <= n,
    ensures
        r matches Some((w, j)) ==> start < j <= n && j - start <= 3 && s@.subrange(
            start as int,
            j as int,
        ) == dec_text(w as nat) && (j == n || !is_digit(s@[j as int])),
        r is None ==> forall|j: int, w: u8|
            #![trigger s@.subrange(start as int, j), dec_text(w as nat)]
            start < j <= n && j - start <= 3 && (j == n || !is_digit(s@[j])) ==> s@.subrange(
                start as int,
                j,
            ) != dec_text(w as nat),
{
    if start >= n {
        return None;
    }
    let c0 = s.get_char(start);
    let u0 = c0 as u32;
    if !(48 <= u0 && u0 <= 57) {
        proof {
            assert forall|j: int, w: u8|
                start < j <= n && j - start <= 3 && (j == n || !is_digit(s@[j])) implies s@.subrange(
                start as int,
                j,
            ) != dec_text(w as nat) by {
                lemma_dec_text_shape(w as nat);
                if s@.subrange(start as int, j) == dec_text(w as nat) {
                    assert(is_digit(dec_text(w as nat)[0]));
                    assert(s@.subrange(start as int, j)[0] == s@[start as int]);
                    assert(false);
                }
            }
        }
        return None;
    }
    let d0: u8 = (u0 - 48) as u8;
    proof {
        assert(digit_char(d0 as nat) == c0);
    }
    if start + 1 == n || !digit_at(s, start + 1) {
        let j = start + 1;
        proof {
            lemma_dec_text_shape(d0 as nat);
            assert(s@.subrange(start as int, j as int) =~= seq![c0]);
            assert(s@.subrange(start as int, j as int) == dec_text(d0 as nat));
        }
        return Some((d0, j));
    }
    if d0 == 0 {
        proof {
            assert(c0 == '0');
            assert forall|j: int, w: u8|
                start < j <= n && j - start <= 3 && (j == n || !is_digit(s@[j])) implies s@.subrange(
                start as int,
                j,
            ) != dec_text(w as nat) by {
                lemma_dec_text_shape(w as nat);
                if s@.subrange(start as int, j) == dec_text(w as nat) {
                    if j == start + 1 {
                        assert(is_digit(s@[j]));
                        assert(false);
                    } else {
                        assert(j - start >= 2);
                        assert(w >= 10);
                        assert(dec_text(w as nat)[0] != '0');
                        assert(s@.subrange(start as int, j)[0] == s@[start as int]);
                        assert(false);
                    }
                }
            }
        }
        return None;
    }
    let c1 = s.get_char(start + 1);
    let u1 = c1 as u32;
    let d1: u8 = (u1 - 48) as u8;
    proof {
        assert(is_digit(s@[start + 1]));
        assert(digit_char(d1 as nat) == c1);
    }
    if start + 2 == n || !digit_at(s, start + 2) {
        let j = start + 2;
        let w: u8 = d0 * 10 + d1;
        proof {
            lemma_dec_text_shape(w as nat);
            assert(w as nat / 10 == d0 as nat && w as nat % 10 == d1 as nat);
            assert(s@.subrange(start as int, j as int) =~= seq![c0, c1]);
            assert(s@.subrange(start as int, j as int) == dec_text(w as nat));
        }
        return Some((w, j));
    }
    let c2 = s.get_char(start + 2);
    let u2 = c2 as u32;
    let d2: u8 = (u2 - 48) as u8;
    proof {
        assert(is_digit(s@[start + 2]));
        assert(digit_char(d2 as nat) == c2);
    }
    if start + 3 < n && digit_at(s, start + 3) {
        proof {
            assert forall|j: int, w: u8|
                start < j <= n && j - start <= 3 && (j == n || !is_digit(s@[j])) implies s@.subrange(
                start as int,
                j,
            ) != dec_text(w as nat) by {
                assert(j == start + 1 || j == start + 2 || j == start + 3);
                assert(is_digit(s@[j]));
                assert(j < n);
                assert(false);
            }
        }
        return None;
    }
    let val: u16 = (d0 as u16) * 100 + (d1 as u16) * 10 + (d2 as u16);
    if val > 255 {
        proof {
            assert forall|j: int, w: u8|
                start < j <= n && j - start <= 3 && (j == n || !is_digit(s@[j])) implies s@.subrange(
                start as int,
                j,
            ) != dec_text(w as nat) by {
                lemma_dec_text_shape(w as nat);
                if s@.subrange(start as int, j) == dec_text(w as nat) {
                    assert(j != start + 1 && j != start + 2);
                    assert(j == start + 3);
                    assert(w >= 100);
                    assert(s@.subrange(start as int, j)[0] == s@[start as int]);
                    assert(s@.subrange(start as int, j)[1] == s@[start + 1]);
                    assert(s@.subrange(start as int, j)[2] == s@[start + 2]);
                    assert(digit_char(w as nat / 100) == c0);
                    assert(digit_char((w as nat / 10) % 10) == c1);
                    assert(digit_char(w as nat % 10) == c2);
                    assert(w as nat / 100 == d0 as nat);
                    assert((w as nat / 10) % 10 == d1 as nat);
                    assert(w as nat % 10 == d2 as nat);
                    assert((w as nat / 10) / 10 == w as nat / 100) by {
                        vstd::arithmetic::div_mod::lemma_div_denominator(w as int, 10, 10);
                    }
                    assert(w as nat == 100 * (d0 as nat) + 10 * (d1 as nat) + d2 as nat);
                    assert(false);
                }
            }
        }
        return None;
    }
    let j = start + 3;
    let w = val as u8;
    proof {
        lemma_dec_text_shape(w as nat);
        assert((w as nat / 10) / 10 == w as nat / 100) by {
            vstd::arithmetic::div_mod::lemma_div_denominator(w as int, 10, 10);
        }
        assert(w as nat / 100 == d0 as nat);
        assert((w as nat / 10) % 10 == d1 as nat);
        assert(w as nat % 10 == d2 as nat);
        assert(s@.subrange(start as int, j as int) =~= seq![c0, c1, c2]);
        assert(s@.subrange(start as int, j as int) == dec_text(w as nat));
    }
    Some((w, j))
}

/// The decomposition of an IPv4 literal: the address it spells, and the
/// lengths of its four digit groups.
proof fn choose_literal(s: Seq<char>) -> (r: (u32, int, int, int, int))
    requires
        is_ipv4_literal(s),
    ensures
        ({
            let (v, la, lb, lc, ld) = r;
            &&& s == ipv4_text(v)
            &&& la == dec_len(oct3(v))
            &&& lb == dec_len(oct2(v))
            &&& lc == dec_len(oct1(v))
            &&& ld == dec_len(oct0(v))
            &&& 1 <= la <= 3
            &&& 1 <= lb <= 3
            &&& 1 <= lc <= 3
            &&& 1 <= ld <= 3
            &&& s.len() == la + lb + lc + ld + 3
            &&& oct3(v) <= 255
            &&& oct2(v) <= 255
            &&& oct1(v) <= 255
            &&& oct0(v) <= 255
            &&& s.subrange(0, la) == dec_text(oct3(v))
            &&& s[la] == '.'
            &&& s.subrange(la + 1, la + 1 + lb) == dec_text(oct2(v))
            &&& s[la + 1 + lb] == '.'
            &&& s.subrange(la + lb + 2, la + lb + 2 + lc) == dec_text(oct1(v))
            &&& s[la + lb + 2 + lc] == '.'
            &&& s.subrange(la + lb + lc + 3, s.len() as int) == dec_text(oct0(v))
        }),
{
    let v = choose|v: u32| s == ipv4_text(v);
    lemma_octet_bounds(v);
    lemma_ipv4_text_parts(v);
    (
        v,
        dec_len(oct3(v)) as int,
        dec_len(oct2(v)) as int,
        dec_len(oct1(v)) as int,
        dec_len(oct0(v)) as int,
    )
}

/// A digit group that ends the string or stops at a non-digit is the only
/// such group at its position: its end and its value are determined.
proof fn lemma_group_end(s: Seq<char>, i: int, j1: int, j2: int, w1: nat, w2: nat)
    requires
        w1 <= 255,
        w2 <= 255,
        0 <= i < j1 <= s.len(),
        i < j2 <= s.len(),
        s.subrange(i, j1) == dec_text(w1),
        s.subrange(i, j2) == dec_text(w2),
        j1 == s.len() || !is_digit(s[j1]),
        j2 == s.len() || !is_digit(s[j2]),
    ensures
        j1 == j2,
        w1 == w2,
{
    lemma_dec_text_shape(w1);
    lemma_dec_text_shape(w2);
    if j1 < j2 {
        assert(s.subrange(i, j2)[j1 - i] == s[j1]);
        assert(is_digit(dec_text(w2)[j1 - i]));
        assert(false);
    }
    if j2 < j1 {
        assert(s.subrange(i, j1)[j2 - i] == s[j2]);
        assert(is_digit(dec_text(w1)[j2 - i]));
        assert(false);
    }
    lemma_dec_text_injective(w1, w2);
}

/// Reads a dotted-decimal IPv4 literal: four canonical octet numerals
/// separated by dots and nothing else. Returns the spelled address value
/// exactly when the whole input is such a literal.
#[verifier::rlimit(60)]
pub fn parse_ipv4(s: &str) -> (r: Option<u32>)
    ensures
        r matches Some(v) ==> s@ == ipv4_text(v) && is_ipv4_literal(s@) && v == ipv4_value(s@),
        r is None ==> !is_ipv4_literal(s@),
{
    let n = s.unicode_len();
    if n > 15 {
        proof {
            if is_ipv4_literal(s@) {
                let (v, la, lb, lc, ld) = choose_literal(s@);
                assert(false);
            }
        }
        return None;
    }
    let r1 = scan_octet(s, 0, n);
    let (w1, j1) = match r1 {
        None => {
            proof {
                if is_ipv4_literal(s@) {
                    let (v, la, lb, lc, ld) = choose_literal(s@);
                    let a8: u8 = oct3(v) as u8;
                    assert(dec_text(a8 as nat) == dec_text(oct3(v)));
                    assert(!is_digit(s@[la]));
                    assert(s@.subrange(0, la) != dec_text(a8 as nat));
                    assert(false);
                }
            }
            return None;
        },
        Some(p) => p,
    };
    if j1 >= n || s.get_char(j1) != '.' {
        proof {
            if is_ipv4_literal(s@) {
                let (v, la, lb, lc, ld) = choose_literal(s@);
                assert(!is_digit(s@[la]));
                lemma_group_end(s@, 0, j1 as int, la, w1 as nat, oct3(v));
                assert(false);
            }
        }
        return None;
    }
    let r2 = scan_octet(s, j1 + 1, n);
    let (w2, j2) = match r2 {
        None => {
            proof {
                if is_ipv4_literal(s@) {
                    let (v, la, lb, lc, ld) = choose_literal(s@);
                    assert(!is_digit(s@[la]));
                    lemma_group_end(s@, 0, j1 as int, la, w1 as nat, oct3(v));
                    let b8: u8 = oct2(v) as u8;
                    assert(s@.subrange((j1 + 1) as int, la + 1 + lb) == dec_text(b8 as nat));
                    assert(!is_digit(s@[la + 1 + lb]));
                    assert(s@.subrange((j1 + 1) as int, la + 1 + lb) != dec_text(b8 as nat));
                    assert(false);
                }
            }
            return None;
        },
        Some(p) => p,
    };
    if j2 >= n || s.get_char(j2) != '.' {
        proof {
            if is_ipv4_literal(s@) {
                let (v, la, lb, lc, ld) = choose_literal(s@);
                assert(!is_digit(s@[la]));
                lemma_group_end(s@, 0, j1 as int, la, w1 as nat, oct3(v));
                assert(!is_digit(s@[la + 1 + lb]));
                assert(s@.subrange((j1 + 1) as int, la + 1 + lb) == dec_text(oct2(v)));
                lemma_group_end(s@, j1 + 1, j2 as int, la + 1 + lb, w2 as nat, oct2(v));
                assert(false);
            }
        }
        return None;
    }
    let r3 = scan_octet(s, j2 + 1, n);
    let (w3, j3) = match r3 {
        None => {
            proof {
                if is_ipv4_literal(s@) {
                    let (v, la, lb, lc, ld) = choose_literal(s@);
                    assert(!is_digit(s@[la]));
                    lemma_group_end(s@, 0, j1 as int, la, w1 as nat, oct3(v));
                    assert(!is_digit(s@[la + 1 + lb]));
                    assert(s@.subrange((j1 + 1) as int, la + 1 + lb) == dec_text(oct2(v)));
                    lemma_group_end(s@, j1 + 1, j2 as int, la + 1 + lb, w2 as nat, oct2(v));
                    let c8: u8 = oct1(v) as u8;
                    assert(s@.subrange((j2 + 1) as int, la + lb + 2 + lc) == dec_text(c8 as nat));
                    assert(!is_digit(s@[la + lb + 2 + lc]));
                    assert(s@.subrange((j2 + 1) as int, la + lb + 2 + lc) != dec_text(c8 as nat));
                    assert(false);
                }
            }
            return None;
        },
        Some(p) => p,
    };
    if j3 >= n || s.get_char(j3) != '.' {
        proof {
            if is_ipv4_literal(s@) {
                let (v, la, lb, lc, ld) = choose_literal(s@);
                assert(!is_digit(s@[la]));
                lemma_group_end(s@, 0, j1 as int, la, w1 as nat, oct3(v));
                assert(!is_digit(s@[la + 1 + lb]));
                assert(s@.subrange((j1 + 1) as int, la + 1 + lb) == dec_text(oct2(v)));
                lemma_group_end(s@, j1 + 1, j2 as int, la + 1 + lb, w2 as nat, oct2(v));
                assert(!is_digit(s@[la + lb + 2 + lc]));
                assert(s@.subrange((j2 + 1) as int, la + lb + 2 + lc) == dec_text(oct1(v)));
                lemma_group_end(s@, j2 + 1, j3 as int, la + lb + 2 + lc, w3 as nat, oct1(v));
                assert(false);
            }
        }
        return None;
    }
    let r4 = scan_octet(s, j3 + 1, n);
    let (w4, j4) = match r4 {
        None => {
            proof {
                if is_ipv4_literal(s@) {
                    let (v, la, lb, lc, ld) = choose_literal(s@);
                    assert(!is_digit(s@[la]));
                    lemma_group_end(s@, 0, j1 as int, la, w1 as nat, oct3(v));
                    assert(!is_digit(s@[la + 1 + lb]));
                    assert(s@.subrange((j1 + 1) as int, la + 1 + lb) == dec_text(oct2(v)));
                    lemma_group_end(s@, j1 + 1, j2 as int, la + 1 + lb, w2 as nat, oct2(v));
                    assert(!is_digit(s@[la + lb + 2 + lc]));
                    assert(s@.subrange((j2 + 1) as int, la + lb + 2 + lc) == dec_text(oct1(v)));
                    lemma_group_end(s@, j2 + 1, j3 as int, la + lb + 2 + lc, w3 as nat, oct1(v));
                    let d8: u8 = oct0(v) as u8;
                    assert(s@.subrange((j3 + 1) as int, n as int) == dec_text(d8 as nat));
                    assert(s@.subrange((j3 + 1) as int, n as int) != dec_text(d8 as nat));
                    assert(false);
                }
            }
            return None;
        },
        Some(p) => p,
    };
    if j4 != n {
        proof {
            if is_ipv4_literal(s@) {
                let (v, la, lb, lc, ld) = choose_literal(s@);
                assert(!is_digit(s@[la]));
                lemma_group_end(s@, 0, j1 as int, la, w1 as nat, oct3(v));
                assert(!is_digit(s@[la + 1 + lb]));
                assert(s@.subrange((j1 + 1) as int, la + 1 + lb) == dec_text(oct2(v)));
                lemma_group_end(s@, j1 + 1, j2 as int, la + 1 + lb, w2 as nat, oct2(v));
                assert(!is_digit(s@[la + lb + 2 + lc]));
                assert(s@.subrange((j2 + 1) as int, la + lb + 2 + lc) == dec_text(oct1(v)));
                lemma_group_end(s@, j2 + 1, j3 as int, la + lb + 2 + lc, w3 as nat, oct1(v));
                assert(s@.subrange((j3 + 1) as int, n as int) == dec_text(oct0(v)));
                lemma_group_end(s@, j3 + 1, j4 as int, n as int, w4 as nat, oct0(v));
                assert(false);
            }
        }
        return None;
    }
    let v = from_octets(w1, w2, w3, w4);
    proof {
        lemma_octets_extract(w1 as nat, w2 as nat, w3 as nat, w4 as nat);
        lemma_dec_text_shape(w1 as nat);
        lemma_dec_text_shape(w2 as nat);
        lemma_dec_text_shape(w3 as nat);
        lemma_dec_text_shape(w4 as nat);
        lemma_ipv4_text_parts(v);
        let t = ipv4_text(v);
        let la = j1 as int;
        let lb = j2 - j1 - 1;
        let lc = j3 - j2 - 1;
        let ld = j4 - j3 - 1;
        assert(la == dec_len(oct3(v)));
        assert(lb == dec_len(oct2(v)));
        assert(lc == dec_len(oct1(v)));
        assert(ld == dec_len(oct0(v)));
        assert(t.len() == n);
        assert(s@ =~= t) by {
            assert forall|k: int| 0 <= k < n implies s@[k] == t[k] by {
                if k < j1 {
                    assert(s@.subrange(0, j1 as int)[k] == s@[k]);
                    assert(t.subrange(0, la)[k] == t[k]);
                } else if k == j1 {
                    assert(t[la] == '.');
                } else if k < j2 {
                    assert(s@.subrange((j1 + 1) as int, j2 as int)[k - j1 - 1] == s@[k]);
                    assert(t.subrange(la + 1, la + 1 + lb)[k - j1 - 1] == t[k]);
                } else if k == j2 {
                    assert(t[la + 1 + lb] == '.');
                } else if k < j3 {
                    assert(s@.subrange((j2 + 1) as int, j3 as int)[k - j2 - 1] == s@[k]);
                    assert(t.subrange(la + lb + 2, la + lb + 2 + lc)[k - j2 - 1] == t[k]);
                } else if k == j3 {
                    assert(t[la + lb + 2 + lc] == '.');
                } else {
                    assert(s@.subrange((j3 + 1) as int, j4 as int)[k - j3 - 1] == s@[k]);
                    assert(t.subrange(la + lb + lc + 3, t.len() as int)[k - j3 - 1] == t[k]);
                }
            }
        }
        assert(s@ == ipv4_text(v));
        lemma_text_round_trip(v);
    }
    Some(v)
}

} // verus!
