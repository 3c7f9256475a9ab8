//! Network addresses as plain values, and their textual form.
use vstd::prelude::*;
use crate::text::{
    decimal, digits_value, hex, is_digit, join, lemma_split_on_start, lemma_split_on_step, push_decimal, push_hex,
    split_on,
};

verus! {

/// An IPv4 or IPv6 address: four octets, or eight 16-bit segments.
#[derive(PartialEq, Eq, Structural, Clone, Copy, Debug)]
pub enum IpAddress {
    V4(u8, u8, u8, u8),
    V6(u16, u16, u16, u16, u16, u16, u16, u16),
}

/// Dotted-decimal text of an IPv4 address.
pub open spec fn v4_text(a: u8, b: u8, c: u8, d: u8) -> Seq<char> {
    decimal(a as nat) + seq!['.'] + decimal(b as nat) + seq!['.'] + decimal(c as nat) + seq!['.']
        + decimal(d as nat)
}

/// The segments of an IPv6 address, in order.
pub open spec fn segments(s0: u16, s1: u16, s2: u16, s3: u16, s4: u16, s5: u16, s6: u16, s7: u16) -> Seq<
    u16,
> {
    seq![s0, s1, s2, s3, s4, s5, s6, s7]
}

/// Segments in lowercase hexadecimal, separated by colons.
pub open spec fn hex_groups(s: Seq<u16>) -> Seq<char> {
    join(hex_list(s), seq![':'])
}

/// Each segment in lowercase hexadecimal.
pub open spec fn hex_list(s: Seq<u16>) -> Seq<Seq<char>> {
    s.map_values(|x: u16| hex(x as nat))
}

/// Positions `st..st+len` hold zero segments.
pub open spec fn is_zero_run(s: Seq<u16>, st: int, len: int) -> bool {
    &&& 0 <= st
    &&& 0 <= len
    &&& st + len <= s.len()
    &&& forall|k: int| st <= k < st + len ==> s[k] == 0
}

/// `st..st+len` is the first of the longest runs of zero segments (the empty
/// run at 0 when there is no zero segment).
pub open spec fn longest_zero_run(s: Seq<u16>, st: int, len: int) -> bool {
    &&& is_zero_run(s, st, len)
    &&& forall|st2: int, len2: int| is_zero_run(s, st2, len2) ==> len2 <= len
    &&& forall|st2: int| 0 <= st2 < st ==> !is_zero_run(s, st2, len)
}

/// The start and length of the first longest run of zero segments.
pub open spec fn zero_run(s: Seq<u16>) -> (int, int) {
    choose|p: (int, int)| longest_zero_run(s, p.0, p.1)
}

/// Text of an IPv6 address as the standard library writes it: an IPv4-mapped
/// address as `::ffff:` and dotted decimal; else lowercase hexadecimal
/// segments where the first longest run of two or more zero segments becomes
/// `::`.
pub open spec fn v6_text(s: Seq<u16>) -> Seq<char> {
    if s[0] == 0 && s[1] == 0 && s[2] == 0 && s[3] == 0 && s[4] == 0 && s[5] == 0xffff {
        seq![':', ':', 'f', 'f', 'f', 'f', ':'] + v4_text(
            (s[6] / 256) as u8,
            (s[6] % 256) as u8,
            (s[7] / 256) as u8,
            (s[7] % 256) as u8,
        )
    } else if zero_run(s).1 > 1 {
        hex_groups(s.subrange(0, zero_run(s).0)) + seq![':', ':'] + hex_groups(
            s.subrange(zero_run(s).0 + zero_run(s).1, 8),
        )
    } else {
        hex_groups(s)
    }
}

/// The text of an address, as the standard library's `Display` writes it.
pub open spec fn ip_text(ip: IpAddress) -> Seq<char> {
    match ip {
        IpAddress::V4(a, b, c, d) => v4_text(a, b, c, d),
        IpAddress::V6(s0, s1, s2, s3, s4, s5, s6, s7) => v6_text(segments(s0, s1, s2, s3, s4, s5, s6, s7)),
    }
}

proof fn lemma_longest_unique(s: Seq<u16>, st: int, len: int)
    requires
        longest_zero_run(s, st, len),
    ensures
        zero_run(s) == (st, len),
{
    let w = (st, len);
    assert(longest_zero_run(s, w.0, w.1));
    let p = zero_run(s);
    assert(longest_zero_run(s, p.0, p.1));
    assert(p.1 <= len && len <= p.1);
    if p.0 < st {
        assert(!is_zero_run(s, p.0, len));
    }
    if st < p.0 {
        assert(!is_zero_run(s, st, p.1));
    }
}

fn push_v4(out: &mut String, a: u8, b: u8, c: u8, d: u8)
    ensures
        final(out)@ == old(out)@ + v4_text(a, b, c, d),
{
    proof {
        reveal_strlit(".");
    }
    push_decimal(out, a as u64);
    out.append(".");
    push_decimal(out, b as u64);
    out.append(".");
    push_decimal(out, c as u64);
    out.append(".");
    push_decimal(out, d as u64);
    proof {
        assert(final(out)@ =~= old(out)@ + v4_text(a, b, c, d));
    }
}

fn push_hex_groups(out: &mut String, segs: &Vec<u16>, from: usize, to: usize)
    requires
        from <= to <= segs@.len(),
    ensures
        final(out)@ == old(out)@ + hex_groups(segs@.subrange(from as int, to as int)),
{
    proof {
        reveal_strlit(":");
    }
    let mut i: usize = from;
    while i < to
        invariant
            from <= i <= to <= segs@.len(),
            out@ == old(out)@ + hex_groups(segs@.subrange(from as int, i as int)),
        decreases to - i,
    {
        let ghost pre = segs@.subrange(from as int, i as int);
        let ghost post = segs@.subrange(from as int, i + 1);
        let ghost hp = hex_list(pre);
        let ghost hq = hex_list(post);
        proof {
            assert(hq.drop_last() =~= hp);
            assert(hq.last() == hex(segs@[i as int] as nat));
        }
        if i > from {
            out.append(":");
        }
        push_hex(out, segs[i] as u64);
        proof {
            if i == from {
                assert(hq.len() == 1);
                assert(hp.len() == 0);
                assert(join(hp, seq![':']) == Seq::<char>::empty());
                assert(join(hq, seq![':']) == hq[0]);
                assert(hq[0] == hex(segs@[i as int] as nat));
                assert(out@ =~= old(out)@ + join(hq, seq![':']));
            } else {
                assert(hq.len() >= 2);
                assert(join(hq, seq![':']) == join(hq.drop_last(), seq![':']) + seq![':'] + hq.last());
                reveal_strlit(":");
                assert(":"@ == seq![':']);
                assert(out@ =~= old(out)@ + join(hq, seq![':']));
            }
        }
        i = i + 1;
    }
}

/// The start and length of the first longest run of zero segments.
fn find_zero_run(segs: &Vec<u16>) -> (r: (usize, usize))
    ensures
        longest_zero_run(segs@, r.0 as int, r.1 as int),
{
    let n = segs.len();
    let mut best_st: usize = 0;
    let mut best_len: usize = 0;
    let mut cur_st: usize = 0;
    let mut cur_len: usize = 0;
    let mut i: usize = 0;
    while i < n
        invariant
            0 <= i <= n == segs@.len(),
            is_zero_run(segs@, best_st as int, best_len as int),
            best_st + best_len <= i,
            forall|st2: int, len2: int| is_zero_run(segs@, st2, len2) && st2 + len2 <= i ==> len2 <= best_len,
            forall|st2: int| 0 <= st2 < best_st ==> !is_zero_run(segs@, st2, best_len as int),
            best_len == 0 ==> best_st == 0,
            is_zero_run(segs@, cur_st as int, cur_len as int),
            cur_st + cur_len == i,
            cur_len <= best_len,
            forall|st2: int, len2: int| is_zero_run(segs@, st2, len2) && st2 + len2 == i ==> len2 <= cur_len,
        decreases n - i,
    {
        if segs[i] == 0 {
            if cur_len == 0 {
                cur_st = i;
            }
            cur_len = cur_len + 1;
            proof {
                assert forall|st2: int, len2: int|
                    is_zero_run(segs@, st2, len2) && st2 + len2 == i + 1 implies len2 <= cur_len by {
                    if len2 > 0 {
                        assert(is_zero_run(segs@, st2, len2 - 1));
                    }
                }
            }
            if cur_len > best_len {
                proof {
                    assert forall|st2: int| 0 <= st2 < cur_st implies !is_zero_run(segs@, st2, cur_len as int) by {
                        if is_zero_run(segs@, st2, cur_len as int) {
                            assert(is_zero_run(segs@, st2, best_len as int + 1));
                            if st2 + best_len + 1 <= i {
                            } else {
                                assert(st2 + cur_len == i + 1);
                            }
                        }
                    }
                }
                best_st = cur_st;
                best_len = cur_len;
            } else {
                proof {
                    assert forall|st2: int, len2: int|
                        is_zero_run(segs@, st2, len2) && st2 + len2 <= i + 1 implies len2 <= best_len by {
                        if st2 + len2 == i + 1 {
                            assert(len2 <= cur_len);
                        }
                    }
                }
            }
        } else {
            proof {
                assert forall|st2: int, len2: int|
                    is_zero_run(segs@, st2, len2) && st2 + len2 == i + 1 implies len2 <= 0 by {
                    if len2 > 0 {
                        assert(segs@[i as int] == 0);
                    }
                }
                assert forall|st2: int, len2: int|
                    is_zero_run(segs@, st2, len2) && st2 + len2 <= i + 1 implies len2 <= best_len by {
                    if len2 > 0 && st2 + len2 == i + 1 {
                        assert(segs@[i as int] == 0);
                    }
                }
            }
            cur_st = i + 1;
            cur_len = 0;
        }
        i = i + 1;
    }
    (best_st, best_len)
}

/// Appends the text of an address, as the standard library's `Display`
/// writes it.
pub fn push_ip(out: &mut String, ip: IpAddress)
    ensures
        final(out)@ == old(out)@ + ip_text(ip),
{
    match ip {
        IpAddress::V4(a, b, c, d) => push_v4(out, a, b, c, d),
        IpAddress::V6(s0, s1, s2, s3, s4, s5, s6, s7) => {
            let ghost sv = segments(s0, s1, s2, s3, s4, s5, s6, s7);
            if s0 == 0 && s1 == 0 && s2 == 0 && s3 == 0 && s4 == 0 && s5 == 0xffff {
                proof {
                    reveal_strlit("::ffff:");
                }
                out.append("::ffff:");
                push_v4(out, (s6 / 256) as u8, (s6 % 256) as u8, (s7 / 256) as u8, (s7 % 256) as u8);
                proof {
                    assert(final(out)@ =~= old(out)@ + ip_text(ip));
                }
            } else {
                let segs = vec![s0, s1, s2, s3, s4, s5, s6, s7];
                proof {
                    assert(segs@ =~= sv);
                }
                let (st, len) = find_zero_run(&segs);
                proof {
                    lemma_longest_unique(sv, st as int, len as int);
                }
                if len > 1 {
                    push_hex_groups(out, &segs, 0, st);
                    proof {
                        reveal_strlit("::");
                    }
                    out.append("::");
                    push_hex_groups(out, &segs, st + len, 8);
                    proof {
                        assert(final(out)@ =~= old(out)@ + ip_text(ip));
                    }
                } else {
                    push_hex_groups(out, &segs, 0, 8);
                    proof {
                        assert(segs@.subrange(0, 8) == segs@);
                    }
                }
            }
        },
    }
}

/// The text of an address, as the standard library's `Display` writes it.
pub fn ip_to_string(ip: IpAddress) -> (s: String)
    ensures
        s@ == ip_text(ip),
{
    let mut s = String::new();
    push_ip(&mut s, ip);
    proof {
        assert(s@ =~= ip_text(ip));
    }
    s
}

/// An IPv4 address: its four octets, most significant first.
#[derive(PartialEq, Eq, Structural, Clone, Copy, Debug)]
pub struct Ipv4Address(pub u8, pub u8, pub u8, pub u8);

/// Dotted-decimal text of an IPv4 address.
pub open spec fn ipv4_text(a: Ipv4Address) -> Seq<char> {
    v4_text(a.0, a.1, a.2, a.3)
}

/// Appends the dotted-decimal text of an IPv4 address.
pub fn push_ipv4(out: &mut String, a: Ipv4Address)
    ensures
        final(out)@ == old(out)@ + ipv4_text(a),
{
    push_v4(out, a.0, a.1, a.2, a.3);
}

/// The dotted-decimal text of an IPv4 address, as a string.
pub fn ipv4_to_string(a: Ipv4Address) -> (s: String)
    ensures
        s@ == ipv4_text(a),
{
    let mut s = String::new();
    push_ipv4(&mut s, a);
    proof {
        assert(s@ =~= ipv4_text(a));
    }
    s
}

/// One part of a dotted-decimal address: one to three digits, no leading
/// zero, at most 255.
pub open spec fn octet_ok(s: Seq<char>) -> bool {
    &&& 1 <= s.len() <= 3
    &&& forall|k: int| 0 <= k < s.len() ==> is_digit(#[trigger] s[k])
    &&& s.len() > 1 ==> s[0] != '0'
    &&& digits_value(s) <= 255
}

/// What parsing text as an IPv4 address gives: four parts separated by dots,
/// each a valid octet; anything else is refused.
pub open spec fn parse_ipv4_spec(s: Seq<char>) -> Option<Ipv4Address> {
    let p = split_on(s, '.');
    if p.len() == 4 && octet_ok(p[0]) && octet_ok(p[1]) && octet_ok(p[2]) && octet_ok(p[3]) {
        Some(
            Ipv4Address(
                digits_value(p[0]) as u8,
                digits_value(p[1]) as u8,
                digits_value(p[2]) as u8,
                digits_value(p[3]) as u8,
            ),
        )
    } else {
        None
    }
}

fn octet_value(v: &Vec<char>, a: usize, b: usize) -> (r: Option<u8>)
    requires
        a <= b <= v@.len(),
    ensures
        r is Some <==> octet_ok(v@.subrange(a as int, b as int)),
        r matches Some(x) ==> x == digits_value(v@.subrange(a as int, b as int)),
{
    let ghost s = v@.subrange(a as int, b as int);
    if b - a < 1 || b - a > 3 {
        return None;
    }
    let mut val: u32 = 0;
    let mut k = a;
    while k < b
        invariant
            a <= k <= b <= v@.len(),
            b - a <= 3,
            s == v@.subrange(a as int, b as int),
            forall|j: int| 0 <= j < k - a ==> is_digit(#[trigger] s[j]),
            val == digits_value(v@.subrange(a as int, k as int)),
            val < 1000,
            (k - a) < 3 ==> val < 100,
            (k - a) < 2 ==> val < 10,
            (k - a) == 0 ==> val == 0,
        decreases b - k,
    {
        let c = v[k];
        let u = c as u32;
        if u < 48 || u > 57 {
            assert(!is_digit(s[k - a]));
            return None;
        }
        proof {
            assert(v@.subrange(a as int, k + 1).drop_last() =~= v@.subrange(a as int, k as int));
        }
        val = val * 10 + (u - 48);
        k = k + 1;
    }
    proof {
        assert(v@.subrange(a as int, k as int) == s);
    }
    if b - a > 1 && v[a] == '0' {
        return None;
    }
    if val > 255 {
        return None;
    }
    Some(val as u8)
}

/// Parses the characters `v[lo..hi]` as an IPv4 address in dotted-decimal
/// notation.
pub fn parse_ipv4_range(v: &Vec<char>, lo: usize, hi: usize) -> (r: Option<Ipv4Address>)
    requires
        lo <= hi <= v@.len(),
    ensures
        r == parse_ipv4_spec(v@.subrange(lo as int, hi as int)),
{
    let ghost s = v@.subrange(lo as int, hi as int);
    let mut vals: Vec<u8> = Vec::new();
    let mut all_ok = true;
    let mut start = lo;
    let mut i = lo;
    let ghost mut done: Seq<Seq<char>> = Seq::empty();
    proof {
        lemma_split_on_start(s, '.');
        assert(s.subrange(0, 0) =~= v@.subrange(lo as int, lo as int));
    }
    while i < hi
        invariant
            lo <= start <= i <= hi <= v@.len(),
            s == v@.subrange(lo as int, hi as int),
            split_on(s.take(i - lo), '.') == done.push(v@.subrange(start as int, i as int)),
            vals@.len() == done.len(),
            all_ok == forall|k: int| 0 <= k < done.len() ==> octet_ok(#[trigger] done[k]),
            all_ok ==> forall|k: int| 0 <= k < done.len() ==> vals@[k] == digits_value(#[trigger] done[k]),
        decreases hi - i,
    {
        proof {
            assert(s.subrange(start - lo, i - lo) =~= v@.subrange(start as int, i as int));
            assert(s.subrange(start - lo, i - lo + 1) =~= v@.subrange(start as int, i + 1));
            assert(s.subrange(i - lo + 1, i - lo + 1) =~= v@.subrange(i + 1, i + 1));
            lemma_split_on_step(s, '.', i - lo, start - lo, done);
        }
        if v[i] == '.' {
            let o = octet_value(v, start, i);
            let ghost part = v@.subrange(start as int, i as int);
            match o {
                Some(x) => {
                    vals.push(x);
                },
                None => {
                    vals.push(0);
                    all_ok = false;
                },
            }
            proof {
                let nd = done.push(part);
                assert forall|k: int| 0 <= k < done.len() implies nd[k] == done[k] by {}
                assert(nd[done.len() as int] == part);
                if all_ok {
                    assert forall|k: int| 0 <= k < nd.len() implies octet_ok(#[trigger] nd[k]) by {
                        if k < done.len() {
                            assert(nd[k] == done[k]);
                        }
                    }
                }
                done = nd;
            }
            start = i + 1;
        }
        i = i + 1;
    }
    proof {
        assert(s.take(hi - lo) =~= s);
    }
    let last = octet_value(v, start, hi);
    let ghost parts = done.push(v@.subrange(start as int, hi as int));
    if vals.len() != 3 || !all_ok {
        assert(parts.len() != 4 || !octet_ok(parts[0]) || !octet_ok(parts[1]) || !octet_ok(parts[2]));
        return None;
    }
    match last {
        None => None,
        Some(d) => {
            assert(parts[0] == done[0] && parts[1] == done[1] && parts[2] == done[2]);
            Some(Ipv4Address(vals[0], vals[1], vals[2], d))
        },
    }
}

} // verus!
