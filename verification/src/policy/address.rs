//! Numeric host addresses.

use crate::policy::scan::{self, parse_based, parse_digits, split_by, strip_prefix};
use crate::text::{self, chars_of, contains_char, split_text};
use vstd::prelude::*;

verus! {

/// The value of one part of an IPv4 number: decimal, hexadecimal after `0x`
/// (a bare prefix is zero), or octal after a leading zero.
pub open spec fn v4_part(part: Seq<char>) -> Option<u64> {
    if part.len() == 0 {
        None
    } else {
        let hex = match scan::stripped(part, "0x"@) {
            Some(d) => Some(d),
            None => scan::stripped(part, "0X"@),
        };
        match hex {
            Some(d) => if d.len() == 0 {
                Some(0u64)
            } else {
                scan::digits_number(d, 16)
            },
            None => if part.len() > 1 && part[0] == '0' {
                scan::digits_number(part.skip(1), 8)
            } else {
                scan::digits_number(part, 10)
            },
        }
    }
}

/// Executable [`v4_part`].
pub fn ipv4_part(part: &str) -> (r: Option<u64>)
    ensures
        r == v4_part(part@),
{
    let chars: Vec<char> = chars_of(part);
    if chars.len() == 0 {
        return None;
    }
    let hex: Option<String> = match strip_prefix(part, "0x") {
        Some(d) => Some(d),
        None => strip_prefix(part, "0X"),
    };
    match hex {
        Some(d) => {
            let n: usize = chars_of(d.as_str()).len();
            if n == 0 {
                Some(0)
            } else {
                parse_digits(d.as_str(), 16)
            }
        },
        None => if chars.len() > 1 && chars[0] == '0' {
            let d: String = text::text_of(&chars, 1, chars.len());
            assert(d@ =~= part@.skip(1));
            parse_digits(d.as_str(), 8)
        } else {
            parse_digits(part, 10)
        },
    }
}

/// The values of the parts, when each has one.
pub open spec fn v4_parts(parts: Seq<Seq<char>>) -> Option<Seq<u64>>
    decreases parts.len(),
{
    if parts.len() == 0 {
        Some(Seq::empty())
    } else {
        match (v4_parts(parts.drop_last()), v4_part(parts.last())) {
            (Some(v), Some(n)) => Some(v.push(n)),
            _ => None,
        }
    }
}

/// The address that one to four numbers denote: every number but the last is
/// a byte, the last fills the bytes the others left.
pub open spec fn v4_address(n: Seq<u64>) -> Option<u64> {
    if n.len() == 1 && n[0] < 4294967296 {
        Some(n[0])
    } else if n.len() == 2 && n[0] <= 255 && n[1] < 16777216 {
        Some((n[0] * 16777216 + n[1]) as u64)
    } else if n.len() == 3 && n[0] <= 255 && n[1] <= 255 && n[2] < 65536 {
        Some((n[0] * 16777216 + n[1] * 65536 + n[2]) as u64)
    } else if n.len() == 4 && n[0] <= 255 && n[1] <= 255 && n[2] <= 255 && n[3] < 256 {
        Some((n[0] * 16777216 + n[1] * 65536 + n[2] * 256 + n[3]) as u64)
    } else {
        None
    }
}

/// The IPv4 address a host denotes as a number; nothing for a host name.
pub open spec fn v4_value(host: Seq<char>) -> Option<u64> {
    match v4_parts(text::split(host, '.')) {
        Some(n) => v4_address(n),
        None => None,
    }
}

proof fn lemma_v4_parts_prefix(parts: Seq<Seq<char>>, k: int)
    requires
        0 <= k <= parts.len(),
        v4_parts(parts) is Some,
    ensures
        v4_parts(parts.take(k)) is Some,
    decreases parts.len(),
{
    if k == parts.len() {
        assert(parts.take(k) =~= parts);
    } else {
        lemma_v4_parts_prefix(parts.drop_last(), k);
        assert(parts.drop_last().take(k) =~= parts.take(k));
    }
}

/// Executable [`v4_value`].
pub fn v4_number(host: &str) -> (r: Option<u64>)
    ensures
        r == v4_value(host@),
{
    let parts: Vec<String> = split_text(host, '.');
    let ghost views = text::texts(parts@);
    let mut n: Vec<u64> = Vec::new();
    let mut i: usize = 0;
    assert(views.take(0) =~= Seq::empty());
    assert(n@ =~= Seq::empty());
    while i < parts.len()
        invariant
            i <= parts.len(),
            views == text::texts(parts@),
            views == text::split(host@, '.'),
            v4_parts(views.take(i as int)) == Some(n@),
            n@.len() == i,
        decreases parts.len() - i,
    {
        assert(views.take(i as int + 1).drop_last() =~= views.take(i as int));
        assert(views.take(i as int + 1).last() == parts@[i as int]@);
        match ipv4_part(parts[i].as_str()) {
            Some(v) => {
                n.push(v);
            },
            None => {
                proof {
                    if v4_parts(views) is Some {
                        lemma_v4_parts_prefix(views, i as int + 1);
                    }
                }
                return None;
            },
        }
        i = i + 1;
    }
    assert(views.take(views.len() as int) =~= views);
    if n.len() == 1 && n[0] < 4294967296 {
        Some(n[0])
    } else if n.len() == 2 && n[0] <= 255 && n[1] < 16777216 {
        Some(n[0] * 16777216 + n[1])
    } else if n.len() == 3 && n[0] <= 255 && n[1] <= 255 && n[2] < 65536 {
        Some(n[0] * 16777216 + n[1] * 65536 + n[2])
    } else if n.len() == 4 && n[0] <= 255 && n[1] <= 255 && n[2] <= 255 && n[3] < 256 {
        Some(n[0] * 16777216 + n[1] * 65536 + n[2] * 256 + n[3])
    } else {
        None
    }
}

/// One group of an IPv6 address: one to four hexadecimal digits.
pub open spec fn v6_group(s: Seq<char>) -> Option<u64> {
    if 1 <= s.len() <= 4 && s[0] != '+' {
        scan::based_number(s, 16)
    } else {
        None
    }
}

fn v6_group_of(s: &str) -> (r: Option<u64>)
    ensures
        r == v6_group(s@),
{
    let chars: Vec<char> = chars_of(s);
    if chars.len() >= 1 && chars.len() <= 4 && chars[0] != '+' {
        parse_based(s, 16)
    } else {
        None
    }
}

/// One byte of a dotted address: up to three digits, no leading zero, at
/// most 255.
pub open spec fn dotted_byte(s: Seq<char>) -> Option<u64> {
    if 1 <= s.len() <= 3 && s[0] != '+' && !(s.len() > 1 && s[0] == '0') {
        match scan::based_number(s, 10) {
            Some(n) => if n <= 255 {
                Some(n)
            } else {
                None
            },
            None => None,
        }
    } else {
        None
    }
}

fn dotted_byte_of(s: &str) -> (r: Option<u64>)
    ensures
        r == dotted_byte(s@),
        r matches Some(n) ==> n <= 255,
{
    let chars: Vec<char> = chars_of(s);
    if chars.len() >= 1 && chars.len() <= 3 && chars[0] != '+' && !(chars.len() > 1 && chars[0]
        == '0') {
        match parse_based(s, 10) {
            Some(n) => if n <= 255 {
                Some(n)
            } else {
                None
            },
            None => None,
        }
    } else {
        None
    }
}

/// The two groups that a dotted address stands for.
pub open spec fn dotted_groups(s: Seq<char>) -> Option<Seq<u64>> {
    let p = text::split(s, '.');
    if p.len() == 4 {
        match (dotted_byte(p[0]), dotted_byte(p[1]), dotted_byte(p[2]), dotted_byte(p[3])) {
            (Some(a), Some(b), Some(c), Some(d)) => Some(
                seq![(a * 256 + b) as u64, (c * 256 + d) as u64],
            ),
            _ => None,
        }
    } else {
        None
    }
}

pub open spec fn groups_view(v: Option<Vec<u64>>) -> Option<Seq<u64>> {
    match v {
        Some(g) => Some(g@),
        None => None,
    }
}

fn dotted_groups_of(s: &str) -> (r: Option<Vec<u64>>)
    ensures
        groups_view(r) == dotted_groups(s@),
{
    let p: Vec<String> = split_text(s, '.');
    let ghost views = text::texts(p@);
    if p.len() != 4 {
        return None;
    }
    assert(views[0] == p@[0]@ && views[1] == p@[1]@ && views[2] == p@[2]@ && views[3] == p@[3]@);
    match (
        dotted_byte_of(p[0].as_str()),
        dotted_byte_of(p[1].as_str()),
        dotted_byte_of(p[2].as_str()),
        dotted_byte_of(p[3].as_str()),
    ) {
        (Some(a), Some(b), Some(c), Some(d)) => {
            let mut g: Vec<u64> = Vec::new();
            g.push(a * 256 + b);
            g.push(c * 256 + d);
            assert(g@ =~= seq![(a * 256 + b) as u64, (c * 256 + d) as u64]);
            Some(g)
        },
        _ => None,
    }
}

/// The groups of a run of colon-separated pieces; the last piece may be a
/// dotted address where `dotted` says so.
pub open spec fn v6_pieces(pieces: Seq<Seq<char>>, dotted: bool) -> Option<Seq<u64>>
    decreases pieces.len(),
{
    if pieces.len() == 0 {
        Some(Seq::empty())
    } else {
        let last = if dotted && pieces.last().contains('.') {
            dotted_groups(pieces.last())
        } else {
            match v6_group(pieces.last()) {
                Some(n) => Some(seq![n]),
                None => None,
            }
        };
        match (v6_pieces(pieces.drop_last(), false), last) {
            (Some(a), Some(b)) => Some(a + b),
            _ => None,
        }
    }
}

/// The groups of one side of an address: an empty side has none.
pub open spec fn v6_side(s: Seq<char>, dotted: bool) -> Option<Seq<u64>> {
    if s.len() == 0 {
        Some(Seq::empty())
    } else {
        v6_pieces(text::split(s, ':'), dotted)
    }
}

proof fn lemma_v6_pieces_prefix(pieces: Seq<Seq<char>>, k: int, dotted: bool)
    requires
        0 <= k < pieces.len(),
        v6_pieces(pieces, dotted) is Some,
    ensures
        v6_pieces(pieces.take(k), false) is Some,
    decreases pieces.len(),
{
    if k == pieces.len() - 1 {
        assert(pieces.take(k) =~= pieces.drop_last());
    } else {
        lemma_v6_pieces_prefix(pieces.drop_last(), k, false);
        assert(pieces.drop_last().take(k) =~= pieces.take(k));
    }
}

fn v6_side_of(s: &str, dotted: bool) -> (r: Option<Vec<u64>>)
    ensures
        groups_view(r) == v6_side(s@, dotted),
{
    let mut g: Vec<u64> = Vec::new();
    let n: usize = chars_of(s).len();
    if n == 0 {
        assert(g@ =~= Seq::empty());
        return Some(g);
    }
    let pieces: Vec<String> = split_text(s, ':');
    let ghost views = text::texts(pieces@);
    let mut i: usize = 0;
    assert(views.take(0) =~= Seq::empty());
    assert(g@ =~= Seq::empty());
    while i + 1 < pieces.len()
        invariant
            i < pieces.len(),
            s@.len() > 0,
            views == text::texts(pieces@),
            views == text::split(s@, ':'),
            v6_pieces(views.take(i as int), false) == Some(g@),
        decreases pieces.len() - i,
    {
        assert(views.take(i as int + 1).drop_last() =~= views.take(i as int));
        assert(views.take(i as int + 1).last() == pieces@[i as int]@);
        match v6_group_of(pieces[i].as_str()) {
            Some(v) => {
                let ghost before = g@;
                g.push(v);
                assert(before + seq![v] =~= g@);
            },
            None => {
                proof {
                    assert(v6_pieces(views.take(i as int + 1), false) is None);
                    if v6_pieces(views, dotted) is Some {
                        lemma_v6_pieces_prefix(views, i as int + 1, dotted);
                    }
                }
                return None;
            },
        }
        i = i + 1;
    }
    assert(views.drop_last() =~= views.take(i as int));
    assert(views.last() == pieces@[i as int]@);
    let ghost before = g@;
    if dotted && contains_char(pieces[i].as_str(), '.') {
        match dotted_groups_of(pieces[i].as_str()) {
            Some(d) => {
                assert(d@.len() == 2);
                g.push(d[0]);
                g.push(d[1]);
                assert(before + d@ =~= g@);
                Some(g)
            },
            None => None,
        }
    } else {
        match v6_group_of(pieces[i].as_str()) {
            Some(v) => {
                g.push(v);
                assert(before + seq![v] =~= g@);
                Some(g)
            },
            None => None,
        }
    }
}

pub open spec fn zeros(n: nat) -> Seq<u64> {
    Seq::new(n, |i: int| 0u64)
}

/// The eight groups of an IPv6 address: all written out, or one `::` that
/// stands for at least one zero group. A dotted address may close it.
pub open spec fn v6_value(s: Seq<char>) -> Option<Seq<u64>> {
    match scan::parted_by(s, "::"@) {
        Some((head, tail)) => match (v6_side(head, false), v6_side(tail, true)) {
            (Some(a), Some(b)) => if a.len() + b.len() <= 7 {
                Some(a + zeros((8 - a.len() - b.len()) as nat) + b)
            } else {
                None
            },
            _ => None,
        },
        None => match v6_side(s, true) {
            Some(g) => if g.len() == 8 {
                Some(g)
            } else {
                None
            },
            None => None,
        },
    }
}

/// Executable [`v6_value`].
pub fn v6_groups(s: &str) -> (r: Option<Vec<u64>>)
    ensures
        groups_view(r) == v6_value(s@),
        r matches Some(g) ==> g@.len() == 8,
{
    match split_by(s, "::") {
        Some((head, tail)) => match (
            v6_side_of(head.as_str(), false),
            v6_side_of(tail.as_str(), true),
        ) {
            (Some(a), Some(b)) => {
                if a.len() > 7 || b.len() > 7 - a.len() {
                    return None;
                }
                let ghost left = a@;
                let gap: usize = 8 - a.len() - b.len();
                let mut g: Vec<u64> = a;
                let mut i: usize = 0;
                assert(left + zeros(0) =~= g@);
                while i < gap
                    invariant
                        i <= gap,
                        g@ == left + zeros(i as nat),
                    decreases gap - i,
                {
                    g.push(0);
                    i = i + 1;
                    assert(g@ =~= left + zeros(i as nat));
                }
                let mut k: usize = 0;
                let ghost base = g@;
                assert(base + b@.take(0) =~= g@);
                while k < b.len()
                    invariant
                        k <= b.len(),
                        g@ == base + b@.take(k as int),
                    decreases b.len() - k,
                {
                    g.push(b[k]);
                    k = k + 1;
                    assert(g@ =~= base + b@.take(k as int));
                }
                assert(b@.take(b@.len() as int) =~= b@);
                Some(g)
            },
            _ => None,
        },
        None => match v6_side_of(s, true) {
            Some(g) => if g.len() == 8 {
                Some(g)
            } else {
                None
            },
            None => None,
        },
    }
}

/// The loopback address, or an IPv4-mapped address of the loopback range.
pub open spec fn is_loopback_v6(s: Seq<char>) -> bool {
    match v6_value(s) {
        Some(g) => g[0] == 0 && g[1] == 0 && g[2] == 0 && g[3] == 0 && g[4] == 0 && ((g[5] == 0
            && g[6] == 0 && g[7] == 1) || (g[5] == 65535 && g[6] / 256 == 127)),
        None => false,
    }
}

/// Executable [`is_loopback_v6`].
pub fn loopback_v6(s: &str) -> (r: bool)
    ensures
        r == is_loopback_v6(s@),
{
    match v6_groups(s) {
        Some(g) => g[0] == 0 && g[1] == 0 && g[2] == 0 && g[3] == 0 && g[4] == 0 && ((g[5] == 0
            && g[6] == 0 && g[7] == 1) || (g[5] == 65535 && g[6] / 256 == 127)),
        None => false,
    }
}

} // verus!
