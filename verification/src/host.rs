use crate::rpc_client::RpcConfig;
use vstd::prelude::*;
use vstd::string::*;

verus! {

/// The place of the first `b` in `s`; the length of `s` where there is none.
pub open spec fn index_of(s: Seq<u8>, b: u8) -> int
    decreases s.len(),
{
    if s.len() == 0 {
        0
    } else if s[0] == b {
        0
    } else {
        1 + index_of(s.skip(1), b)
    }
}

/// What follows the last `b` in `s`; all of `s` where there is none.
pub open spec fn after_last(s: Seq<u8>, b: u8) -> Seq<u8>
    decreases s.len(),
{
    if s.len() == 0 {
        s
    } else if s.last() == b {
        Seq::empty()
    } else {
        after_last(s.drop_last(), b).push(s.last())
    }
}

/// `s` without the `b`s it starts with.
pub open spec fn trim_start(s: Seq<u8>, b: u8) -> Seq<u8>
    decreases s.len(),
{
    if s.len() > 0 && s[0] == b {
        trim_start(s.skip(1), b)
    } else {
        s
    }
}

/// Whether `://` stands at place `j` of `s`.
pub open spec fn scheme_at(s: Seq<u8>, j: int) -> bool {
    0 <= j && j + 2 < s.len() && s[j] == 58 && s[j + 1] == 47 && s[j + 2] == 47
}

/// Where the first `://` of `s` starts.
pub open spec fn scheme_end(s: Seq<u8>) -> Option<int>
    decreases s.len(),
{
    if s.len() < 3 {
        None
    } else if s[0] == 58 && s[1] == 47 && s[2] == 47 {
        Some(0)
    } else {
        match scheme_end(s.skip(1)) {
            Some(i) => Some(i + 1),
            None => None,
        }
    }
}

/// The host that a URL names: what follows `://`, up to the first `/` and
/// the first `?`, after the last `@`; then, where that starts with `[`, what
/// stands between the opening brackets and the first `]`, and else what
/// stands before the first `:`. A text without `://` names no host.
pub open spec fn host_of(url: Seq<u8>) -> Option<Seq<u8>> {
    match scheme_end(url) {
        None => None,
        Some(i) => {
            let after = url.skip(i + 3);
            let authority = after.take(index_of(after, 47));
            let authority = authority.take(index_of(authority, 63));
            let hostport = after_last(authority, 64);
            if hostport.len() > 0 && hostport[0] == 91 {
                let inner = trim_start(hostport, 91);
                Some(inner.take(index_of(inner, 93)))
            } else {
                Some(hostport.take(index_of(hostport, 58)))
            }
        },
    }
}

/// The first place that holds `b`, with none before it, is `index_of`.
pub proof fn lemma_index_of_is(s: Seq<u8>, b: u8, i: int)
    requires
        0 <= i <= s.len(),
        i < s.len() ==> s[i] == b,
        forall|j: int| 0 <= j < i ==> s[j] != b,
    ensures
        index_of(s, b) == i,
    decreases s.len(),
{
    if s.len() > 0 && i > 0 {
        assert(s[0] != b);
        assert forall|j: int| 0 <= j < i - 1 implies s.skip(1)[j] != b by {
            assert(s.skip(1)[j] == s[j + 1]);
        }
        lemma_index_of_is(s.skip(1), b, i - 1);
    }
}

/// What follows a `b` that no `b` follows is `after_last`.
pub proof fn lemma_after_last_is(s: Seq<u8>, b: u8, k: int)
    requires
        0 <= k <= s.len(),
        k > 0 ==> s[k - 1] == b,
        k == 0 ==> forall|j: int| 0 <= j < s.len() ==> s[j] != b,
        forall|j: int| k <= j < s.len() ==> s[j] != b,
    ensures
        after_last(s, b) == s.skip(k),
    decreases s.len(),
{
    if s.len() == 0 {
        assert(s.skip(0) =~= s);
    } else if k == s.len() {
        assert(s.skip(k) =~= Seq::<u8>::empty());
    } else {
        lemma_after_last_is(s.drop_last(), b, k);
        assert(s.drop_last().skip(k).push(s.last()) =~= s.skip(k));
    }
}

/// Skipping the `b`s at the start up to a place that holds another byte, or
/// the end, gives `trim_start`.
pub proof fn lemma_trim_start_is(s: Seq<u8>, b: u8, k: int)
    requires
        0 <= k <= s.len(),
        forall|j: int| 0 <= j < k ==> s[j] == b,
        k < s.len() ==> s[k] != b,
    ensures
        trim_start(s, b) == s.skip(k),
    decreases s.len(),
{
    if k == 0 {
        assert(s.skip(0) =~= s);
    } else {
        assert(s[0] == b);
        assert forall|j: int| 0 <= j < k - 1 implies s.skip(1)[j] == b by {
            assert(s.skip(1)[j] == s[j + 1]);
        }
        lemma_trim_start_is(s.skip(1), b, k - 1);
        assert(s.skip(1).skip(k - 1) =~= s.skip(k));
    }
}

/// The first place where `://` stands, with none before it, is `scheme_end`.
pub proof fn lemma_scheme_end_is(s: Seq<u8>, i: int)
    requires
        0 <= i,
        forall|j: int| 0 <= j < i ==> !scheme_at(s, j),
        i + 2 < s.len() ==> scheme_at(s, i),
    ensures
        scheme_end(s) == if i + 2 < s.len() {
            Some(i)
        } else {
            None::<int>
        },
    decreases s.len(),
{
    if s.len() >= 3 && i > 0 {
        let rest = s.skip(1);
        assert(!scheme_at(s, 0));
        assert forall|j: int| 0 <= j < i - 1 implies !scheme_at(rest, j) by {
            assert(!scheme_at(s, j + 1));
            if j + 2 < rest.len() {
                assert(rest[j] == s[j + 1]);
                assert(rest[j + 1] == s[j + 2]);
                assert(rest[j + 2] == s[j + 3]);
            }
        }
        if i + 2 < s.len() {
            assert(scheme_at(s, i));
            assert(rest[i - 1] == s[i]);
            assert(rest[i] == s[i + 1]);
            assert(rest[i + 1] == s[i + 2]);
            assert(scheme_at(rest, i - 1));
        }
        lemma_scheme_end_is(rest, i - 1);
    }
}

/// A copy of the bytes from `lo` up to `hi`.
pub(crate) fn copy_range(s: &[u8], lo: usize, hi: usize) -> (r: Vec<u8>)
    requires
        lo <= hi <= s@.len(),
    ensures
        r@ == s@.subrange(lo as int, hi as int),
{
    let mut out: Vec<u8> = Vec::new();
    let mut i: usize = lo;
    while i < hi
        invariant
            lo <= i <= hi <= s@.len(),
            out@ == s@.subrange(lo as int, i as int),
        decreases hi - i,
    {
        out.push(s[i]);
        proof {
            assert(out@ =~= s@.subrange(lo as int, i + 1));
        }
        i += 1;
    }
    out
}

/// The place of the first `b`.
pub(crate) fn find_byte(s: &[u8], b: u8) -> (r: usize)
    ensures
        r == index_of(s@, b),
        r <= s@.len(),
{
    let mut i: usize = 0;
    while i < s.len() && s[i] != b
        invariant
            i <= s@.len(),
            forall|j: int| 0 <= j < i ==> s@[j] != b,
        decreases s@.len() - i,
    {
        i += 1;
    }
    proof {
        lemma_index_of_is(s@, b, i as int);
    }
    i
}

/// The bytes up to the first `b`.
pub(crate) fn up_to(s: &[u8], b: u8) -> (r: Vec<u8>)
    ensures
        r@ == s@.take(index_of(s@, b)),
{
    let end = find_byte(s, b);
    copy_range(s, 0, end)
}

/// The bytes after the last `b`.
fn tail_after(s: &[u8], b: u8) -> (r: Vec<u8>)
    ensures
        r@ == after_last(s@, b),
{
    let mut k: usize = s.len();
    while k > 0 && s[k - 1] != b
        invariant
            k <= s@.len(),
            forall|j: int| k <= j < s@.len() ==> s@[j] != b,
        decreases k,
    {
        k -= 1;
    }
    proof {
        lemma_after_last_is(s@, b, k as int);
    }
    copy_range(s, k, s.len())
}

/// The bytes after the `b`s at the start.
fn skip_leading(s: &[u8], b: u8) -> (r: Vec<u8>)
    ensures
        r@ == trim_start(s@, b),
{
    let mut k: usize = 0;
    while k < s.len() && s[k] == b
        invariant
            k <= s@.len(),
            forall|j: int| 0 <= j < k ==> s@[j] == b,
        decreases s@.len() - k,
    {
        k += 1;
    }
    proof {
        lemma_trim_start_is(s@, b, k as int);
    }
    copy_range(s, k, s.len())
}

/// Where the first `://` starts.
fn find_scheme_end(s: &[u8]) -> (r: Option<usize>)
    ensures
        match r {
            Some(i) => scheme_end(s@) == Some(i as int) && i + 3 <= s@.len(),
            None => scheme_end(s@) is None,
        },
{
    if s.len() < 3 {
        return None;
    }
    let last: usize = s.len() - 2;
    let mut i: usize = 0;
    while i < last && !(s[i] == 58 && s[i + 1] == 47 && s[i + 2] == 47)
        invariant
            last == s@.len() - 2,
            i <= last,
            forall|j: int| 0 <= j < i ==> !scheme_at(s@, j),
        decreases last - i,
    {
        i += 1;
    }
    proof {
        lemma_scheme_end_is(s@, i as int);
    }
    if i < last {
        Some(i)
    } else {
        None
    }
}

/// The host that a URL names.
pub fn extract_host(url: &[u8]) -> (r: Option<Vec<u8>>)
    ensures
        match r {
            Some(host) => host_of(url@) == Some(host@),
            None => host_of(url@) is None,
        },
{
    let end: usize = url.len();
    let start = match find_scheme_end(url) {
        Some(i) => i + 3,
        None => {
            return None;
        },
    };
    let after = copy_range(url, start, end);
    let authority = up_to(after.as_slice(), 47);
    let authority = up_to(authority.as_slice(), 63);
    let hostport = tail_after(authority.as_slice(), 64);
    if hostport.len() > 0 && hostport[0] == 91 {
        let inner = skip_leading(hostport.as_slice(), 91);
        Some(up_to(inner.as_slice(), 93))
    } else {
        Some(up_to(hostport.as_slice(), 58))
    }
}

/// The decimal digit at a place of `s`, if one stands there.
pub open spec fn digit_at(s: Seq<u8>, pos: int) -> Option<int> {
    if 0 <= pos < s.len() && 48 <= s[pos] <= 57 {
        Some(s[pos] - 48)
    } else {
        None
    }
}

/// The value of the hexadecimal digit at a place of `s`, if one stands
/// there, in either case of letter.
pub open spec fn hex_at(s: Seq<u8>, pos: int) -> Option<int> {
    if 0 <= pos < s.len() && 48 <= s[pos] <= 57 {
        Some(s[pos] - 48)
    } else if 0 <= pos < s.len() && 97 <= s[pos] <= 102 {
        Some(s[pos] - 87)
    } else if 0 <= pos < s.len() && 65 <= s[pos] <= 70 {
        Some(s[pos] - 55)
    } else {
        None
    }
}

/// Whether the byte `b` stands at a place of `s`.
pub open spec fn byte_at(s: Seq<u8>, pos: int, b: u8) -> bool {
    0 <= pos < s.len() && s[pos] == b
}

/// The decimal number of an IPv4 address that starts at `pos`, with the
/// place after it: one to three digits, all that stand there, without a
/// leading zero before another digit, and at most 255.
pub open spec fn octet_at(s: Seq<u8>, pos: int) -> Option<(u8, int)> {
    match digit_at(s, pos) {
        None => None,
        Some(d0) => match digit_at(s, pos + 1) {
            None => Some((d0 as u8, pos + 1)),
            Some(d1) => if d0 == 0 {
                None
            } else {
                match digit_at(s, pos + 2) {
                    None => Some(((d0 * 10 + d1) as u8, pos + 2)),
                    Some(d2) => if digit_at(s, pos + 3) is Some || d0 * 100 + d1 * 10 + d2 > 255 {
                        None
                    } else {
                        Some(((d0 * 100 + d1 * 10 + d2) as u8, pos + 3))
                    },
                }
            },
        },
    }
}

/// The hexadecimal group of an IPv6 address that starts at `pos`, with the
/// place after it: one to four digits, all that stand there.
pub open spec fn group_at(s: Seq<u8>, pos: int) -> Option<(u16, int)> {
    match hex_at(s, pos) {
        None => None,
        Some(h0) => match hex_at(s, pos + 1) {
            None => Some((h0 as u16, pos + 1)),
            Some(h1) => match hex_at(s, pos + 2) {
                None => Some(((h0 * 16 + h1) as u16, pos + 2)),
                Some(h2) => match hex_at(s, pos + 3) {
                    None => Some(((h0 * 256 + h1 * 16 + h2) as u16, pos + 3)),
                    Some(h3) => if hex_at(s, pos + 4) is Some {
                        None
                    } else {
                        Some(((h0 * 4096 + h1 * 256 + h2 * 16 + h3) as u16, pos + 4))
                    },
                },
            },
        },
    }
}

/// The dotted IPv4 address that starts at `pos`, with the place after it:
/// four numbers with a dot between each two.
pub open spec fn ipv4_at(s: Seq<u8>, pos: int) -> Option<((u8, u8, u8, u8), int)> {
    match octet_at(s, pos) {
        Some((a, first_end)) if byte_at(s, first_end, 46) => match octet_at(s, first_end + 1) {
            Some((b, second_end)) if byte_at(s, second_end, 46) => match octet_at(s, second_end + 1) {
                Some((c, third_end)) if byte_at(s, third_end, 46) => match octet_at(s, third_end + 1) {
                    Some((d, fourth_end)) => Some(((a, b, c, d), fourth_end)),
                    None => None,
                },
                _ => None,
            },
            _ => None,
        },
        _ => None,
    }
}

/// The place where the `i`th item of a run of groups starts: after a colon
/// for every item but the first.
pub open spec fn item_start(s: Seq<u8>, pos: int, i: int) -> Option<int> {
    if i == 0 {
        Some(pos)
    } else if byte_at(s, pos, 58) {
        Some(pos + 1)
    } else {
        None
    }
}

/// The run of colon-separated groups that starts at `pos` as item `i` of at
/// most `limit`: the groups, the place after them, and whether the run ended
/// with a dotted IPv4 address, which stands for two groups and needs room
/// for both. The run ends before the first item that cannot be read.
pub open spec fn groups_at(s: Seq<u8>, pos: int, i: int, limit: int) -> (Seq<u16>, int, bool)
    decreases limit - i,
{
    if i >= limit {
        (Seq::empty(), pos, false)
    } else {
        match item_start(s, pos, i) {
            None => (Seq::empty(), pos, false),
            Some(start) => if i < limit - 1 && ipv4_at(s, start) is Some {
                let ((a, b, c, d), next) = ipv4_at(s, start)->0;
                (seq![(a * 256 + b) as u16, (c * 256 + d) as u16], next, true)
            } else {
                match group_at(s, start) {
                    None => (Seq::empty(), pos, false),
                    Some((g, next)) => {
                        let rest = groups_at(s, next, i + 1, limit);
                        (seq![g] + rest.0, rest.1, rest.2)
                    },
                }
            },
        }
    }
}

/// `n` groups of zero.
pub open spec fn zeros(n: int) -> Seq<u16> {
    Seq::new(n as nat, |i: int| 0u16)
}

/// The eight groups of an IPv6 address written in full or with one `::`,
/// which stands for at least one group of zero; a dotted IPv4 address may
/// stand for the last two groups, but not before `::`. Nothing may follow.
pub open spec fn parse_ipv6(s: Seq<u8>) -> Option<Seq<u16>> {
    let head = groups_at(s, 0, 0, 8);
    if head.0.len() == 8 {
        if head.1 == s.len() {
            Some(head.0)
        } else {
            None
        }
    } else if head.2 || !(byte_at(s, head.1, 58) && byte_at(s, head.1 + 1, 58)) {
        None
    } else {
        let tail = groups_at(s, head.1 + 2, 0, 7 - head.0.len());
        if tail.1 == s.len() {
            Some(head.0 + zeros(8 - head.0.len() - tail.0.len()) + tail.0)
        } else {
            None
        }
    }
}

/// An address written as a literal.
#[derive(Debug)]
pub enum HostAddr {
    V4(u8, u8, u8, u8),
    V6(Vec<u16>),
}

/// The value of an address literal: four bytes, or eight groups.
pub enum HostAddrView {
    V4(u8, u8, u8, u8),
    V6(Seq<u16>),
}

impl View for HostAddr {
    type V = HostAddrView;

    open spec fn view(&self) -> HostAddrView {
        match self {
            HostAddr::V4(a, b, c, d) => HostAddrView::V4(*a, *b, *c, *d),
            HostAddr::V6(groups) => HostAddrView::V6(groups@),
        }
    }
}

/// The address that a host text is a literal of: a dotted IPv4 address, or
/// else an IPv6 address; nothing where it is neither. A text that starts
/// with a dotted IPv4 address and goes on is no literal.
pub open spec fn parse_ip(s: Seq<u8>) -> Option<HostAddrView> {
    match ipv4_at(s, 0) {
        Some(((a, b, c, d), next)) => if next == s.len() {
            Some(HostAddrView::V4(a, b, c, d))
        } else {
            None
        },
        None => match parse_ipv6(s) {
            Some(groups) => Some(HostAddrView::V6(groups)),
            None => None,
        },
    }
}

/// 127.0.0.0/8.
pub open spec fn v4_loopback(a: u8) -> bool {
    a == 127
}

/// 10.0.0.0/8, 172.16.0.0/12 and 192.168.0.0/16.
pub open spec fn v4_private(a: u8, b: u8) -> bool {
    a == 10 || (a == 172 && 16 <= b <= 31) || (a == 192 && b == 168)
}

/// 100.64.0.0/10, the range of carrier-grade NAT.
pub open spec fn v4_cgnat(a: u8, b: u8) -> bool {
    a == 100 && 64 <= b <= 127
}

/// Whether an IPv4 address is loopback, private or carrier-grade NAT.
pub open spec fn safe_v4(a: u8, b: u8) -> bool {
    v4_loopback(a) || v4_private(a, b) || v4_cgnat(a, b)
}

/// `::1`.
pub open spec fn v6_loopback(g: Seq<u16>) -> bool {
    g[0] == 0 && g[1] == 0 && g[2] == 0 && g[3] == 0 && g[4] == 0 && g[5] == 0 && g[6] == 0
        && g[7] == 1
}

/// fc00::/7.
pub open spec fn v6_unique_local(g: Seq<u16>) -> bool {
    0xfc00 <= g[0] <= 0xfdff
}

/// fe80::/10.
pub open spec fn v6_link_local(g: Seq<u16>) -> bool {
    0xfe80 <= g[0] <= 0xfebf
}

/// ::ffff:0:0/96, the IPv4 addresses written as IPv6.
pub open spec fn v6_mapped(g: Seq<u16>) -> bool {
    g[0] == 0 && g[1] == 0 && g[2] == 0 && g[3] == 0 && g[4] == 0 && g[5] == 0xffff
}

/// Whether an IPv6 address is loopback, unique local or link local, or a
/// loopback or private IPv4 address written as IPv6.
pub open spec fn safe_v6(g: Seq<u16>) -> bool {
    g.len() == 8 && (v6_loopback(g) || v6_unique_local(g) || v6_link_local(g) || (v6_mapped(g)
        && (v4_loopback((g[6] / 256) as u8) || v4_private(
        (g[6] / 256) as u8,
        (g[6] % 256) as u8,
    ))))
}

/// Whether an address is loopback, private, carrier-grade NAT, unique local
/// or link local.
pub open spec fn safe_ip(addr: HostAddrView) -> bool {
    match addr {
        HostAddrView::V4(a, b, c, d) => safe_v4(a, b),
        HostAddrView::V6(g) => safe_v6(g),
    }
}

/// A capital ASCII letter as its small letter.
pub open spec fn lower_byte(b: u8) -> u8 {
    if 65 <= b <= 90 {
        (b + 32) as u8
    } else {
        b
    }
}

/// The bytes of `localhost`.
pub open spec fn localhost() -> Seq<u8> {
    seq![108u8, 111u8, 99u8, 97u8, 108u8, 104u8, 111u8, 115u8, 116u8]
}

/// Whether a host text is `localhost`, in any case of letters.
pub open spec fn is_localhost(host: Seq<u8>) -> bool {
    host.len() == 9 && forall|i: int| 0 <= i < 9 ==> lower_byte(#[trigger] host[i]) == localhost()[i]
}

/// Whether a host is safe to talk to: `localhost`, or a literal of a safe
/// address. A name that would have to be resolved is not.
pub open spec fn safe_host(host: Seq<u8>) -> bool {
    is_localhost(host) || match parse_ip(host) {
        Some(addr) => safe_ip(addr),
        None => false,
    }
}

/// Whether a URL names a safe host.
pub open spec fn safe_url(url: Seq<u8>) -> bool {
    match host_of(url) {
        Some(host) => safe_host(host),
        None => false,
    }
}

/// Every address in 127.0.0.0/8, 10.0.0.0/8, 172.16.0.0/12, 192.168.0.0/16
/// and 100.64.0.0/10 is safe, and so are `::1`, every address in fd00::/8
/// and fe80::/10, and every IPv4 loopback or private address written as
/// IPv6.
pub proof fn lemma_safe_ranges(a: u8, b: u8, c: u8, d: u8, g: Seq<u16>)
    ensures
        a == 127 ==> safe_ip(HostAddrView::V4(a, b, c, d)),
        a == 10 ==> safe_ip(HostAddrView::V4(a, b, c, d)),
        a == 172 && 16 <= b <= 31 ==> safe_ip(HostAddrView::V4(a, b, c, d)),
        a == 192 && b == 168 ==> safe_ip(HostAddrView::V4(a, b, c, d)),
        a == 100 && 64 <= b <= 127 ==> safe_ip(HostAddrView::V4(a, b, c, d)),
        g.len() == 8 && v6_loopback(g) ==> safe_ip(HostAddrView::V6(g)),
        g.len() == 8 && g[0] / 256 == 0xfd ==> safe_ip(HostAddrView::V6(g)),
        g.len() == 8 && g[0] / 64 == 1018 ==> safe_ip(HostAddrView::V6(g)),
        g.len() == 8 && v6_mapped(g) && (g[6] / 256 == 127 || g[6] / 256 == 10 || (g[6] / 256
            == 172 && 16 <= g[6] % 256 <= 31) || (g[6] / 256 == 192 && g[6] % 256 == 168))
            ==> safe_ip(HostAddrView::V6(g)),
{
}

/// An IPv4 address outside the safe ranges is not safe, and neither is an
/// IPv6 address that is not loopback, unique local, link local or a safe
/// IPv4 address written as IPv6.
pub proof fn lemma_other_addresses_unsafe(a: u8, b: u8, c: u8, d: u8, g: Seq<u16>)
    ensures
        !(a == 127 || a == 10 || (a == 172 && 16 <= b <= 31) || (a == 192 && b == 168) || (a
            == 100 && 64 <= b <= 127)) ==> !safe_ip(HostAddrView::V4(a, b, c, d)),
        g.len() == 8 && !v6_loopback(g) && !v6_unique_local(g) && !v6_link_local(g) && !v6_mapped(
            g,
        ) ==> !safe_ip(HostAddrView::V6(g)),
{
}

/// A host that is neither `localhost` nor an address literal, such as a
/// name that would have to be resolved, is not safe; and a literal is safe
/// exactly where its address is.
pub proof fn lemma_unresolved_host_unsafe(host: Seq<u8>)
    ensures
        !is_localhost(host) && parse_ip(host) is None ==> !safe_host(host),
        !is_localhost(host) && parse_ip(host) is Some ==> safe_host(host) == safe_ip(
            parse_ip(host)->0,
        ),
        is_localhost(host) ==> safe_host(host),
{
}

fn read_digit(s: &[u8], pos: usize) -> (r: Option<u8>)
    ensures
        match r {
            Some(d) => digit_at(s@, pos as int) == Some(d as int) && pos < s@.len() && pos
                < usize::MAX,
            None => digit_at(s@, pos as int) is None,
        },
{
    if pos < s.len() && 48 <= s[pos] && s[pos] <= 57 {
        Some(s[pos] - 48)
    } else {
        None
    }
}

fn read_hex(s: &[u8], pos: usize) -> (r: Option<u16>)
    ensures
        match r {
            Some(h) => hex_at(s@, pos as int) == Some(h as int) && pos < s@.len() && h < 16
                && pos < usize::MAX,
            None => hex_at(s@, pos as int) is None,
        },
{
    if pos >= s.len() {
        return None;
    }
    let b: u8 = s[pos];
    if 48 <= b && b <= 57 {
        Some((b - 48) as u16)
    } else if 97 <= b && b <= 102 {
        Some((b - 87) as u16)
    } else if 65 <= b && b <= 70 {
        Some((b - 55) as u16)
    } else {
        None
    }
}

fn has_byte(s: &[u8], pos: usize, b: u8) -> (r: bool)
    ensures
        r == byte_at(s@, pos as int, b),
        r ==> pos < usize::MAX,
{
    pos < s.len() && s[pos] == b
}

fn read_octet(s: &[u8], pos: usize) -> (r: Option<(u8, usize)>)
    ensures
        match r {
            Some((v, next)) => octet_at(s@, pos as int) == Some((v, next as int)) && next
                <= s@.len(),
            None => octet_at(s@, pos as int) is None,
        },
{
    let d0: u8 = match read_digit(s, pos) {
        Some(d) => d,
        None => {
            return None;
        },
    };
    let d1: u8 = match read_digit(s, pos + 1) {
        Some(d) => d,
        None => {
            return Some((d0, pos + 1));
        },
    };
    if d0 == 0 {
        return None;
    }
    let d2: u8 = match read_digit(s, pos + 2) {
        Some(d) => d,
        None => {
            return Some((d0 * 10 + d1, pos + 2));
        },
    };
    if read_digit(s, pos + 3).is_some() {
        return None;
    }
    let value: u16 = (d0 as u16) * 100 + (d1 as u16) * 10 + (d2 as u16);
    if value > 255 {
        return None;
    }
    Some((value as u8, pos + 3))
}

fn read_group(s: &[u8], pos: usize) -> (r: Option<(u16, usize)>)
    ensures
        match r {
            Some((v, next)) => group_at(s@, pos as int) == Some((v, next as int)) && next
                <= s@.len(),
            None => group_at(s@, pos as int) is None,
        },
{
    let h0: u16 = match read_hex(s, pos) {
        Some(h) => h,
        None => {
            return None;
        },
    };
    let h1: u16 = match read_hex(s, pos + 1) {
        Some(h) => h,
        None => {
            return Some((h0, pos + 1));
        },
    };
    let h2: u16 = match read_hex(s, pos + 2) {
        Some(h) => h,
        None => {
            return Some((h0 * 16 + h1, pos + 2));
        },
    };
    let h3: u16 = match read_hex(s, pos + 3) {
        Some(h) => h,
        None => {
            return Some((h0 * 256 + h1 * 16 + h2, pos + 3));
        },
    };
    if read_hex(s, pos + 4).is_some() {
        return None;
    }
    Some((h0 * 4096 + h1 * 256 + h2 * 16 + h3, pos + 4))
}

fn read_ipv4(s: &[u8], pos: usize) -> (r: Option<((u8, u8, u8, u8), usize)>)
    ensures
        match r {
            Some((addr, next)) => ipv4_at(s@, pos as int) == Some((addr, next as int)) && next
                <= s@.len(),
            None => ipv4_at(s@, pos as int) is None,
        },
{
    let (a, first_end) = match read_octet(s, pos) {
        Some(found) => found,
        None => {
            return None;
        },
    };
    if !has_byte(s, first_end, 46) {
        return None;
    }
    let (b, second_end) = match read_octet(s, first_end + 1) {
        Some(found) => found,
        None => {
            return None;
        },
    };
    if !has_byte(s, second_end, 46) {
        return None;
    }
    let (c, third_end) = match read_octet(s, second_end + 1) {
        Some(found) => found,
        None => {
            return None;
        },
    };
    if !has_byte(s, third_end, 46) {
        return None;
    }
    match read_octet(s, third_end + 1) {
        Some((d, fourth_end)) => Some(((a, b, c, d), fourth_end)),
        None => None,
    }
}

fn read_groups(s: &[u8], pos: usize, i: usize, limit: usize) -> (r: (Vec<u16>, usize, bool))
    requires
        pos <= s@.len(),
        i <= limit <= 8,
    ensures
        (r.0@, r.1 as int, r.2) == groups_at(s@, pos as int, i as int, limit as int),
        r.1 <= s@.len(),
        r.0@.len() <= limit - i,
    decreases limit - i,
{
    let mut groups: Vec<u16> = Vec::new();
    if i >= limit {
        return (groups, pos, false);
    }
    let start: usize = if i == 0 {
        pos
    } else if has_byte(s, pos, 58) {
        pos + 1
    } else {
        return (groups, pos, false);
    };
    if i < limit - 1 {
        match read_ipv4(s, start) {
            Some(((a, b, c, d), next)) => {
                groups.push((a as u16) * 256 + (b as u16));
                groups.push((c as u16) * 256 + (d as u16));
                proof {
                    assert(groups@ =~= seq![(a * 256 + b) as u16, (c * 256 + d) as u16]);
                }
                return (groups, next, true);
            },
            None => {},
        }
    }
    match read_group(s, start) {
        None => (groups, pos, false),
        Some((g, next)) => {
            let (mut rest, end, dotted) = read_groups(s, next, i + 1, limit);
            let ghost tail = rest@;
            groups.push(g);
            groups.append(&mut rest);
            proof {
                assert(groups@ =~= seq![g] + tail);
            }
            (groups, end, dotted)
        },
    }
}

fn read_ipv6(s: &[u8]) -> (r: Option<Vec<u16>>)
    ensures
        match r {
            Some(groups) => parse_ipv6(s@) == Some(groups@) && groups@.len() == 8,
            None => parse_ipv6(s@) is None,
        },
{
    let (mut groups, pos, dotted) = read_groups(s, 0, 0, 8);
    let ghost head = groups@;
    if groups.len() == 8 {
        if pos == s.len() {
            return Some(groups);
        }
        return None;
    }
    if dotted || !has_byte(s, pos, 58) || !has_byte(s, pos + 1, 58) {
        return None;
    }
    let (mut tail, end, _) = read_groups(s, pos + 2, 0, 7 - groups.len());
    if end != s.len() {
        return None;
    }
    let ghost back = tail@;
    let missing: usize = 8 - groups.len() - tail.len();
    let mut k: usize = 0;
    while k < missing
        invariant
            k <= missing,
            groups@ == head + zeros(k as int),
        decreases missing - k,
    {
        groups.push(0);
        proof {
            assert(groups@ =~= head + zeros(k + 1));
        }
        k += 1;
    }
    groups.append(&mut tail);
    Some(groups)
}

/// Reads a host text as an address literal.
pub fn parse_host_addr(host: &[u8]) -> (r: Option<HostAddr>)
    ensures
        match r {
            Some(addr) => parse_ip(host@) == Some(addr@),
            None => parse_ip(host@) is None,
        },
{
    match read_ipv4(host, 0) {
        Some(((a, b, c, d), next)) => {
            if next == host.len() {
                Some(HostAddr::V4(a, b, c, d))
            } else {
                None
            }
        },
        None => match read_ipv6(host) {
            Some(groups) => Some(HostAddr::V6(groups)),
            None => None,
        },
    }
}

/// Whether an IPv4 address lies in the range of carrier-grade NAT.
pub fn is_cgnat(a: u8, b: u8) -> (r: bool)
    ensures
        r == v4_cgnat(a, b),
{
    a == 100 && 64 <= b && b <= 127
}

fn is_private_v4(a: u8, b: u8) -> (r: bool)
    ensures
        r == v4_private(a, b),
{
    a == 10 || (a == 172 && 16 <= b && b <= 31) || (a == 192 && b == 168)
}

/// Whether an address is safe to talk to.
pub fn is_safe_rpc_ip(addr: &HostAddr) -> (r: bool)
    ensures
        r == safe_ip(addr@),
{
    match addr {
        HostAddr::V4(a, b, _, _) => *a == 127 || is_private_v4(*a, *b) || is_cgnat(*a, *b),
        HostAddr::V6(g) => {
            if g.len() != 8 {
                return false;
            }
            let zero_start = g[0] == 0 && g[1] == 0 && g[2] == 0 && g[3] == 0 && g[4] == 0;
            let loopback = zero_start && g[5] == 0 && g[6] == 0 && g[7] == 1;
            let unique_local = 0xfc00 <= g[0] && g[0] <= 0xfdff;
            let link_local = 0xfe80 <= g[0] && g[0] <= 0xfebf;
            let mapped = zero_start && g[5] == 0xffff;
            let a: u8 = (g[6] / 256) as u8;
            let b: u8 = (g[6] % 256) as u8;
            loopback || unique_local || link_local || (mapped && (a == 127 || is_private_v4(a, b)))
        },
    }
}

fn to_lower_byte(b: u8) -> (r: u8)
    ensures
        r == lower_byte(b),
{
    if 65 <= b && b <= 90 {
        b + 32
    } else {
        b
    }
}

fn names_localhost(host: &[u8]) -> (r: bool)
    ensures
        r == is_localhost(host@),
{
    if host.len() != 9 {
        return false;
    }
    let name: [u8; 9] = [108, 111, 99, 97, 108, 104, 111, 115, 116];
    assert(name@ =~= localhost());
    let mut i: usize = 0;
    while i < 9
        invariant
            i <= 9,
            host@.len() == 9,
            name@ == localhost(),
            forall|j: int| 0 <= j < i ==> lower_byte(#[trigger] host@[j]) == localhost()[j],
        decreases 9 - i,
    {
        if to_lower_byte(host[i]) != name[i] {
            return false;
        }
        i += 1;
    }
    true
}

/// Whether a host is `localhost` or a literal of a safe address.
pub fn is_safe_host(host: &[u8]) -> (r: bool)
    ensures
        r == safe_host(host@),
{
    if names_localhost(host) {
        return true;
    }
    match parse_host_addr(host) {
        Some(addr) => is_safe_rpc_ip(&addr),
        None => false,
    }
}

/// Whether a URL names a host that is safe to talk to: `localhost`, or a
/// literal address that is loopback, private, carrier-grade NAT, unique
/// local or link local. Any other address, and any name that would have to
/// be resolved, is not.
pub fn is_safe_rpc_host(url: &str) -> (r: bool)
    ensures
        r == safe_url(url.spec_bytes()),
{
    match extract_host(url.as_bytes()) {
        Some(host) => is_safe_host(host.as_slice()),
        None => false,
    }
}

/// Whether the override that admits any host is on: it is where the
/// setting reads `1`.
pub fn allow_insecure(setting: Option<&str>) -> (r: bool)
    ensures
        r == (setting matches Some(value) && value@ == "1"@),
{
    match setting {
        Some(value) => crate::text::str_eq(value, "1"),
        None => false,
    }
}

/// Why a configuration with an unsafe host is turned down.
pub const UNSAFE_HOST_ERROR: &'static str =
    "RPC URL must be localhost/private unless DANGER_INSECURE_RPC=1";

/// The host of the configured URL must be safe, unless the override is on.
pub fn validate_rpc_host(config: &RpcConfig, allow_insecure: bool) -> (r: Result<(), String>)
    ensures
        r is Ok <==> safe_url(vstd::utf8::encode_utf8(config.url@)) || allow_insecure,
        r matches Err(reason) ==> reason@ == UNSAFE_HOST_ERROR@,
{
    if is_safe_rpc_host(config.url.as_str()) || allow_insecure {
        Ok(())
    } else {
        Err(UNSAFE_HOST_ERROR.to_owned())
    }
}

} // verus!
