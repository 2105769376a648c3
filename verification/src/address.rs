//! The text forms of IPv6 addresses and of socket addresses, as
//! `Ipv6Addr::from_str` and `SocketAddr::from_str` read them.
use crate::network::{ipv4, ipv4_of};
use crate::text::{
    all_digits, digits_value, find_char, find_from, find_seq, first_index, parse_unsigned,
    slice_of, split_char, split_on, views,
};
use vstd::prelude::*;

verus! {

/// The value of a hexadecimal digit (`char::to_digit(16)`).
pub open spec fn hex_digit(c: char) -> Option<nat> {
    let u = c as u32;
    if 48 <= u <= 57 {
        Some((u - 48) as nat)
    } else if 97 <= u <= 102 {
        Some((u - 87) as nat)
    } else if 65 <= u <= 70 {
        Some((u - 55) as nat)
    } else {
        None
    }
}

/// Every character is a hexadecimal digit.
pub open spec fn all_hex(p: Seq<char>) -> bool {
    forall|i: int| 0 <= i < p.len() ==> (#[trigger] hex_digit(p[i])) is Some
}

/// The value of a run of hexadecimal digits.
pub open spec fn hex_value(p: Seq<char>) -> nat
    decreases p.len(),
{
    if p.len() == 0 {
        0
    } else {
        hex_value(p.drop_last()) * 16 + match hex_digit(p.last()) {
            Some(d) => d,
            None => 0,
        }
    }
}

/// One 16-bit group of an IPv6 address: one to four hexadecimal digits.
pub open spec fn hex_group(p: Seq<char>) -> Option<nat> {
    if 1 <= p.len() <= 4 && all_hex(p) {
        Some(hex_value(p))
    } else {
        None
    }
}

/// The 16-bit groups that colon-separated pieces stand for; when `v4_last`, the
/// last piece may instead be a dotted IPv4 address, which stands for two groups.
pub open spec fn units(ps: Seq<Seq<char>>, v4_last: bool) -> Option<Seq<nat>>
    decreases ps.len(),
{
    if ps.len() == 0 {
        Some(seq![])
    } else {
        match units(ps.drop_last(), false) {
            None => None,
            Some(u) => if v4_last && ipv4(ps.last()) is Some {
                let a = ipv4(ps.last())->0;
                Some(u + seq![a[0] * 256 + a[1], a[2] * 256 + a[3]])
            } else {
                match hex_group(ps.last()) {
                    Some(g) => Some(u.push(g)),
                    None => None,
                }
            },
        }
    }
}

/// The groups of a colon-separated run, none when the run is empty.
pub open spec fn group_list(t: Seq<char>, v4_last: bool) -> Option<Seq<nat>> {
    if t.len() == 0 {
        Some(seq![])
    } else {
        units(split_on(t, ':'), v4_last)
    }
}

/// The eight 16-bit groups of an IPv6 address written as `Ipv6Addr::from_str`
/// accepts it: eight groups, the last two of which may be a dotted IPv4
/// address, or groups before and after one `::` that stands for the missing
/// zero groups (at least one), with an IPv4 address allowed only at the end.
pub open spec fn ipv6(s: Seq<char>) -> Option<Seq<nat>> {
    match find_from(s, seq![':', ':'], 0) {
        Some(k) => {
            let head = group_list(s.subrange(0, k), false);
            let tail = group_list(s.subrange(k + 2, s.len() as int), true);
            if head is Some && tail is Some && head->0.len() + tail->0.len() <= 7 {
                let h = head->0;
                let t = tail->0;
                Some(h + Seq::new((8 - h.len() - t.len()) as nat, |i: int| 0nat) + t)
            } else {
                None
            }
        },
        None => match units(split_on(s, ':'), true) {
            Some(u) => if u.len() == 8 {
                Some(u)
            } else {
                None
            },
            None => None,
        },
    }
}

/// A port: decimal digits whose value fits in 16 bits.
pub open spec fn port_text(p: Seq<char>) -> bool {
    p.len() > 0 && all_digits(p) && digits_value(p) <= 65535
}

/// A scope id: decimal digits whose value fits in 32 bits.
pub open spec fn scope_text(z: Seq<char>) -> bool {
    z.len() > 0 && all_digits(z) && digits_value(z) <= 0xffff_ffff
}

/// Whether `SocketAddr::from_str` accepts `s`: `a.b.c.d:port`, or
/// `[ipv6]:port` with an optional `%scope` after the address.
pub open spec fn socket_address(s: Seq<char>) -> bool {
    if s.len() > 0 && s[0] == '[' {
        let k = first_index(s, ']');
        let inner = s.subrange(1, k);
        let m = first_index(inner, '%');
        &&& k < s.len()
        &&& ipv6(inner.subrange(0, m)) is Some
        &&& (m == inner.len() || scope_text(inner.subrange(m + 1, inner.len() as int)))
        &&& k + 1 < s.len()
        &&& s[k + 1] == ':'
        &&& port_text(s.subrange(k + 2, s.len() as int))
    } else {
        let k = first_index(s, ':');
        &&& k < s.len()
        &&& ipv4(s.subrange(0, k)) is Some
        &&& port_text(s.subrange(k + 1, s.len() as int))
    }
}

fn hex_digit_of(c: char) -> (r: Option<u64>)
    ensures
        match r {
            Some(d) => hex_digit(c) == Some(d as nat) && d < 16,
            None => hex_digit(c) is None,
        },
{
    let u = c as u32;
    if 48 <= u && u <= 57 {
        Some((u - 48) as u64)
    } else if 97 <= u && u <= 102 {
        Some((u - 87) as u64)
    } else if 65 <= u && u <= 70 {
        Some((u - 55) as u64)
    } else {
        None
    }
}

/// The bound on the value of `i` hexadecimal digits.
spec fn hex_bound(i: int) -> int {
    if i <= 0 {
        1
    } else if i == 1 {
        16
    } else if i == 2 {
        256
    } else if i == 3 {
        4096
    } else {
        65536
    }
}

fn hex_group_of(p: &Vec<char>) -> (r: Option<u64>)
    ensures
        match r {
            Some(v) => hex_group(p@) == Some(v as nat) && v < 65536,
            None => hex_group(p@) is None,
        },
{
    if p.len() < 1 || p.len() > 4 {
        return None;
    }
    let mut value: u64 = 0;
    let mut i: usize = 0;
    assert(p@.take(0) =~= Seq::<char>::empty());
    while i < p.len()
        invariant
            1 <= p.len() <= 4,
            i <= p.len(),
            value == hex_value(p@.take(i as int)),
            value < hex_bound(i as int),
            forall|j: int| 0 <= j < i ==> (#[trigger] hex_digit(p@[j])) is Some,
        decreases p.len() - i,
    {
        match hex_digit_of(p[i]) {
            Some(d) => {
                assert(p@.take(i + 1).drop_last() =~= p@.take(i as int));
                assert(p@.take(i + 1).last() == p@[i as int]);
                value = value * 16 + d;
            },
            None => {
                return None;
            },
        }
        i = i + 1;
    }
    assert(p@.take(p.len() as int) =~= p@);
    Some(value)
}

fn units_of(ps: &Vec<Vec<char>>, v4_last: bool) -> (r: Option<Vec<u64>>)
    ensures
        match r {
            Some(v) => units(views(ps@), v4_last) == Some(v@.map_values(|x: u64| x as nat)),
            None => units(views(ps@), v4_last) is None,
        },
{
    let ghost pv = views(ps@);
    let mut out: Vec<u64> = Vec::new();
    if ps.len() == 0 {
        assert(out@.map_values(|x: u64| x as nat) =~= Seq::<nat>::empty());
        return Some(out);
    }
    let last = ps.len() - 1;
    let mut i: usize = 0;
    assert(pv.take(0) =~= Seq::<Seq<char>>::empty());
    assert(out@.map_values(|x: u64| x as nat) =~= Seq::<nat>::empty());
    while i < last
        invariant
            pv == views(ps@),
            last == ps.len() - 1,
            i <= last,
            units(pv.take(i as int), false) == Some(out@.map_values(|x: u64| x as nat)),
        decreases last - i,
    {
        assert(pv.take(i + 1).drop_last() =~= pv.take(i as int));
        assert(pv.take(i + 1).last() == ps@[i as int]@);
        match hex_group_of(&ps[i]) {
            Some(g) => {
                let ghost before = out@.map_values(|x: u64| x as nat);
                out.push(g);
                assert(out@.map_values(|x: u64| x as nat) =~= before.push(g as nat));
            },
            None => {
                proof {
                    lemma_units_none_persists(pv, i as int + 1);
                }
                return None;
            },
        }
        i = i + 1;
    }
    assert(pv.drop_last() =~= pv.take(last as int));
    assert(pv.last() == ps@[last as int]@);
    let ghost before = out@.map_values(|x: u64| x as nat);
    if v4_last {
        match ipv4_of(&ps[last]) {
            Some(a) => {
                let ghost av = a@.map_values(|x: u64| x as nat);
                assert(av[0] == a@[0] && av[1] == a@[1] && av[2] == a@[2] && av[3] == a@[3]);
                proof {
                    crate::network::lemma_ipv4_parts_small(ps@[last as int]@);
                }
                assert(a@[0] <= 255 && a@[1] <= 255 && a@[2] <= 255 && a@[3] <= 255);
                out.push(a[0] * 256 + a[1]);
                out.push(a[2] * 256 + a[3]);
                assert(out@.map_values(|x: u64| x as nat) =~= before + seq![
                    av[0] * 256 + av[1],
                    av[2] * 256 + av[3],
                ]);
                return Some(out);
            },
            None => {},
        }
    }
    match hex_group_of(&ps[last]) {
        Some(g) => {
            out.push(g);
            assert(out@.map_values(|x: u64| x as nat) =~= before.push(g as nat));
            Some(out)
        },
        None => None,
    }
}

/// Once a prefix of pieces fails, the groups of the pieces without the last fail.
proof fn lemma_units_none_persists(pv: Seq<Seq<char>>, k: int)
    requires
        1 <= k < pv.len(),
        units(pv.take(k), false) is None,
    ensures
        units(pv.drop_last(), false) is None,
    decreases pv.len() - k,
{
    if k < pv.len() - 1 {
        assert(pv.take(k + 1).drop_last() =~= pv.take(k));
        lemma_units_none_persists(pv, k + 1);
    } else {
        assert(pv.take(k) =~= pv.drop_last());
    }
}

fn group_list_of(t: &Vec<char>, v4_last: bool) -> (r: Option<Vec<u64>>)
    ensures
        match r {
            Some(v) => group_list(t@, v4_last) == Some(v@.map_values(|x: u64| x as nat)),
            None => group_list(t@, v4_last) is None,
        },
{
    if t.len() == 0 {
        let out: Vec<u64> = Vec::new();
        assert(out@.map_values(|x: u64| x as nat) =~= Seq::<nat>::empty());
        return Some(out);
    }
    let ps = split_char(t, ':');
    units_of(&ps, v4_last)
}

/// The eight groups of an IPv6 address, if `s` is one.
pub fn ipv6_of(s: &Vec<char>) -> (r: Option<Vec<u64>>)
    ensures
        match r {
            Some(v) => ipv6(s@) == Some(v@.map_values(|x: u64| x as nat)) && v@.len() == 8,
            None => ipv6(s@) is None,
        },
{
    let sep = vec![':', ':'];
    assert(sep@ =~= seq![':', ':']);
    match find_seq(s, &sep, 0) {
        Some(k) => {
            proof {
                crate::text::lemma_find_from(s@, sep@, 0);
                assert(crate::text::occurs_at(s@, sep@, k as int));
            }
            assert(k + 2 <= s.len());
            let head = slice_of(s, 0, k);
            let tail = slice_of(s, k + 2, s.len());
            let h = match group_list_of(&head, false) {
                Some(h) => h,
                None => {
                    return None;
                },
            };
            let t = match group_list_of(&tail, true) {
                Some(t) => t,
                None => {
                    return None;
                },
            };
            if h.len() > 7 || t.len() > 7 - h.len() {
                return None;
            }
            let ghost hv = h@.map_values(|x: u64| x as nat);
            let ghost tv = t@.map_values(|x: u64| x as nat);
            let zeros = 8 - h.len() - t.len();
            let mut out = h;
            let mut j: usize = 0;
            while j < zeros
                invariant
                    j <= zeros,
                    out@.map_values(|x: u64| x as nat) == hv + Seq::new(j as nat, |i: int| 0nat),
                decreases zeros - j,
            {
                let ghost before = out@.map_values(|x: u64| x as nat);
                out.push(0);
                assert(out@.map_values(|x: u64| x as nat) =~= before.push(0nat));
                assert(out@.map_values(|x: u64| x as nat) =~= hv + Seq::new(
                    (j + 1) as nat,
                    |i: int| 0nat,
                ));
                j = j + 1;
            }
            let mut i: usize = 0;
            let ghost mid = out@.map_values(|x: u64| x as nat);
            while i < t.len()
                invariant
                    i <= t.len(),
                    tv == t@.map_values(|x: u64| x as nat),
                    out@.map_values(|x: u64| x as nat) == mid + tv.take(i as int),
                decreases t.len() - i,
            {
                let ghost before = out@.map_values(|x: u64| x as nat);
                let x = t[i];
                out.push(x);
                assert(out@.map_values(|x: u64| x as nat) =~= before.push(x as nat));
                assert(tv[i as int] == x as nat);
                assert(tv.take(i + 1) =~= tv.take(i as int).push(x as nat));
                assert(out@.map_values(|x: u64| x as nat) =~= mid + tv.take(i + 1));
                i = i + 1;
            }
            assert(tv.take(t.len() as int) =~= tv);
            Some(out)
        },
        None => {
            let ps = split_char(s, ':');
            match units_of(&ps, true) {
                Some(u) => if u.len() == 8 {
                    Some(u)
                } else {
                    None
                },
                None => None,
            }
        },
    }
}

/// Whether `s` is a socket address that the health server can bind.
pub fn is_socket_address(s: &Vec<char>) -> (b: bool)
    ensures
        b == socket_address(s@),
{
    if s.len() > 0 && s[0] == '[' {
        let k = match find_char(s, 0, ']') {
            Some(k) => k,
            None => {
                assert(s@.subrange(0, s@.len() as int) =~= s@);
                return false;
            },
        };
        assert(s@.subrange(0, s@.len() as int) =~= s@);
        proof {
            crate::text::lemma_first_index(s@, ']');
        }
        assert(k >= 1);
        let inner = slice_of(s, 1, k);
        let m = match find_char(&inner, 0, '%') {
            Some(m) => m,
            None => inner.len(),
        };
        assert(inner@.subrange(0, inner@.len() as int) =~= inner@);
        let addr = slice_of(&inner, 0, m);
        if ipv6_of(&addr).is_none() {
            return false;
        }
        if m < inner.len() {
            let scope = slice_of(&inner, m + 1, inner.len());
            if !(scope.len() > 0 && digits_only(&scope) && parse_unsigned(&scope, 0xffff_ffff).is_some()) {
                return false;
            }
        }
        if !(k + 1 < s.len() && s[k + 1] == ':') {
            return false;
        }
        let port = slice_of(s, k + 2, s.len());
        port.len() > 0 && digits_only(&port) && parse_unsigned(&port, 65535).is_some()
    } else {
        let k = match find_char(s, 0, ':') {
            Some(k) => k,
            None => {
                assert(s@.subrange(0, s@.len() as int) =~= s@);
                return false;
            },
        };
        assert(s@.subrange(0, s@.len() as int) =~= s@);
        let addr = slice_of(s, 0, k);
        if ipv4_of(&addr).is_none() {
            return false;
        }
        let port = slice_of(s, k + 1, s.len());
        port.len() > 0 && digits_only(&port) && parse_unsigned(&port, 65535).is_some()
    }
}

fn digit(c: char) -> (b: bool)
    ensures
        b == crate::text::is_digit(c),
{
    match c {
        '0' | '1' | '2' | '3' | '4' | '5' | '6' | '7' | '8' | '9' => true,
        _ => false,
    }
}

fn digits_only(p: &Vec<char>) -> (b: bool)
    ensures
        b == all_digits(p@),
{
    let mut i: usize = 0;
    while i < p.len()
        invariant
            i <= p.len(),
            forall|j: int| 0 <= j < i ==> crate::text::is_digit(p@[j]),
        decreases p.len() - i,
    {
        if !digit(p[i]) {
            return false;
        }
        i = i + 1;
    }
    true
}

} // verus!
