//! The bridge's hosts database. The DNS engine linked here offers no way
//! to load a hosts database from bytes — its loader reads a system path,
//! and its resolver takes no injected database — so the bridge keeps the
//! table itself and mirrors the engine's own consult: the same line
//! grammar, the same search-qualified candidate order, and the same
//! v4-before-v6 answer selection. One difference remains: the engine
//! interleaves its hosts consult with upstream queries per record type,
//! while the bridge answers a lookup from the table, when any candidate
//! matches, before asking upstream at all.

use vstd::prelude::*;

verus! {

/// ASCII whitespace that separates the fields of a hosts line: space,
/// tab, vertical tab, form feed, and carriage return. A line feed never
/// appears, since lines are already split.
pub open spec fn is_field_space(b: u8) -> bool {
    b == 32 || b == 9 || b == 11 || b == 12 || b == 13
}

/// The comment byte: a number sign ends the significant part of a line.
pub const COMMENT_BYTE: u8 = 35;

/// The token machine over the rest of a line: `cur` is the token gathered
/// so far. A comment byte ends the line; whitespace closes the gathered
/// token, if any; every other byte extends it.
pub open spec fn tokens_from(l: Seq<u8>, cur: Seq<u8>) -> Seq<Seq<u8>>
    decreases l.len(),
{
    if l.len() == 0 || l[0] == COMMENT_BYTE {
        if cur.len() > 0 {
            seq![cur]
        } else {
            Seq::empty()
        }
    } else if is_field_space(l[0]) {
        if cur.len() > 0 {
            seq![cur] + tokens_from(l.skip(1), Seq::empty())
        } else {
            tokens_from(l.skip(1), Seq::empty())
        }
    } else {
        tokens_from(l.skip(1), cur.push(l[0]))
    }
}

/// The fields of one hosts line: the whitespace-separated tokens before
/// the first comment byte. A hosts entry is a line with at least two
/// fields, an address literal followed by host names.
pub open spec fn spec_line_tokens(l: Seq<u8>) -> Seq<Seq<u8>> {
    tokens_from(l, Seq::empty())
}

proof fn lemma_skip_skip_one(s: Seq<u8>, a: int)
    requires
        0 <= a < s.len(),
    ensures
        s.skip(a).skip(1) == s.skip(a + 1),
{
    assert(s.skip(a).skip(1) =~= s.skip(a + 1));
}

/// Splits one hosts line into its fields, exactly as the token machine
/// names them.
pub fn hosts_line_tokens(line: &[u8]) -> (r: Vec<Vec<u8>>)
    ensures
        r.deep_view() == spec_line_tokens(line@),
{
    let n = line.len();
    let mut r: Vec<Vec<u8>> = Vec::new();
    let mut cur: Vec<u8> = Vec::new();
    let mut i: usize = 0;
    proof {
        assert(line@.skip(0) =~= line@);
        assert(r.deep_view() =~= Seq::<Seq<u8>>::empty());
    }
    while i < n
        invariant
            i <= n,
            n == line@.len(),
            spec_line_tokens(line@) == r.deep_view() + tokens_from(
                line@.skip(i as int),
                cur@,
            ),
        decreases n - i,
    {
        let ghost t = line@.skip(i as int);
        let ghost r0 = r.deep_view();
        let ghost c0 = cur@;
        proof {
            assert(t[0] == line@[i as int]);
            lemma_skip_skip_one(line@, i as int);
        }
        let b = line[i];
        if b == COMMENT_BYTE {
            if cur.len() > 0 {
                r.push(cur);
                cur = Vec::new();
                proof {
                    assert(r.deep_view() =~~= r0.push(c0));
                    assert(tokens_from(t, c0) =~= seq![c0]);
                    assert(r0.push(c0) =~= r0 + seq![c0]);
                }
            } else {
                proof {
                    assert(tokens_from(t, c0) =~= Seq::<Seq<u8>>::empty());
                }
            }
            i = n;
            proof {
                assert(line@.skip(n as int) =~= Seq::<u8>::empty());
                assert(r.deep_view() + tokens_from(line@.skip(n as int), cur@) =~= r.deep_view());
                assert(spec_line_tokens(line@) == r.deep_view() + tokens_from(
                    line@.skip(i as int),
                    cur@,
                ));
            }
        } else if b == 32 || b == 9 || b == 11 || b == 12 || b == 13 {
            if cur.len() > 0 {
                r.push(cur);
                cur = Vec::new();
                proof {
                    assert(r.deep_view() =~~= r0.push(c0));
                    assert(tokens_from(t, c0) =~= seq![c0] + tokens_from(t.skip(1), Seq::empty()));
                    assert(r0.push(c0) + tokens_from(t.skip(1), cur@) =~= r0 + (seq![c0]
                        + tokens_from(t.skip(1), cur@)));
                }
            } else {
                proof {
                    assert(c0 =~= Seq::<u8>::empty());
                    assert(tokens_from(t, c0) =~= tokens_from(t.skip(1), cur@));
                }
            }
            i = i + 1;
        } else {
            cur.push(b);
            proof {
                assert(cur@ =~= c0.push(t[0]));
                assert(tokens_from(t, c0) =~= tokens_from(t.skip(1), c0.push(t[0])));
            }
            i = i + 1;
        }
    }
    if cur.len() > 0 {
        let ghost r0 = r.deep_view();
        let ghost c0 = cur@;
        proof {
            assert(line@.skip(i as int) =~= Seq::<u8>::empty());
            assert(tokens_from(line@.skip(i as int), c0) =~= seq![c0]);
        }
        r.push(cur);
        proof {
            assert(r.deep_view() =~~= r0.push(c0));
            assert(r0.push(c0) =~= r0 + seq![c0]);
        }
    } else {
        proof {
            assert(line@.skip(i as int) =~= Seq::<u8>::empty());
            assert(tokens_from(line@.skip(i as int), cur@) =~= Seq::<Seq<u8>>::empty());
            assert(r.deep_view() + Seq::<Seq<u8>>::empty() =~= r.deep_view());
        }
    }
    r
}

/// The line machine over a hosts file: `cur` is the line gathered so far.
/// A line feed closes the gathered line; every other byte extends it; the
/// last line needs no line feed.
pub open spec fn lines_from(s: Seq<u8>, cur: Seq<u8>) -> Seq<Seq<u8>>
    decreases s.len(),
{
    if s.len() == 0 {
        seq![cur]
    } else if s[0] == 10 {
        seq![cur] + lines_from(s.skip(1), Seq::empty())
    } else {
        lines_from(s.skip(1), cur.push(s[0]))
    }
}

/// The lines of a hosts file, split on line feeds.
pub open spec fn spec_hosts_lines(s: Seq<u8>) -> Seq<Seq<u8>> {
    lines_from(s, Seq::empty())
}

/// Splits a hosts file into its lines, exactly as the line machine names
/// them.
pub fn split_hosts_lines(data: &[u8]) -> (r: Vec<Vec<u8>>)
    ensures
        r.deep_view() == spec_hosts_lines(data@),
{
    let n = data.len();
    let mut r: Vec<Vec<u8>> = Vec::new();
    let mut cur: Vec<u8> = Vec::new();
    let mut i: usize = 0;
    proof {
        assert(data@.skip(0) =~= data@);
        assert(r.deep_view() =~= Seq::<Seq<u8>>::empty());
    }
    while i < n
        invariant
            i <= n,
            n == data@.len(),
            spec_hosts_lines(data@) == r.deep_view() + lines_from(data@.skip(i as int), cur@),
        decreases n - i,
    {
        let ghost t = data@.skip(i as int);
        let ghost r0 = r.deep_view();
        let ghost c0 = cur@;
        proof {
            assert(t[0] == data@[i as int]);
            lemma_skip_skip_one(data@, i as int);
        }
        let b = data[i];
        if b == 10 {
            r.push(cur);
            cur = Vec::new();
            proof {
                assert(r.deep_view() =~~= r0.push(c0));
                assert(lines_from(t, c0) =~= seq![c0] + lines_from(t.skip(1), cur@));
                assert(r0.push(c0) + lines_from(t.skip(1), cur@) =~= r0 + (seq![c0] + lines_from(
                    t.skip(1),
                    cur@,
                )));
            }
        } else {
            cur.push(b);
            proof {
                assert(cur@ =~= c0.push(t[0]));
                assert(lines_from(t, c0) =~= lines_from(t.skip(1), c0.push(t[0])));
            }
        }
        i = i + 1;
    }
    let ghost r0 = r.deep_view();
    let ghost c0 = cur@;
    proof {
        assert(data@.skip(i as int) =~= Seq::<u8>::empty());
        assert(lines_from(data@.skip(i as int), c0) =~= seq![c0]);
    }
    r.push(cur);
    proof {
        assert(r.deep_view() =~~= r0.push(c0));
        assert(r0.push(c0) =~= r0 + seq![c0]);
    }
    r
}

/// Whether one hosts line carries an entry: at least an address field and
/// one host name.
pub fn hosts_line_entry(line: &[u8]) -> (r: Option<(Vec<u8>, Vec<Vec<u8>>)>)
    ensures
        spec_line_tokens(line@).len() >= 2 ==> (r matches Some((addr, names))
            && addr@ == spec_line_tokens(line@)[0] && names.deep_view() == spec_line_tokens(
            line@,
        ).skip(1)),
        spec_line_tokens(line@).len() < 2 ==> r is None,
{
    let mut tokens = hosts_line_tokens(line);
    if tokens.len() < 2 {
        return None;
    }
    let ghost all = tokens.deep_view();
    let addr = tokens.remove(0);
    proof {
        assert(addr@ == all[0]);
        assert(tokens.deep_view() =~= all.skip(1));
    }
    Some((addr, tokens))
}

/// One entry of the bridge's hosts table: the address field as written in
/// the file, and the host names listed for it.
pub struct HostsEntry {
    pub addr: Vec<u8>,
    pub names: Vec<Vec<u8>>,
}

/// The abstract value of a hosts table: each entry as its address bytes
/// and name list.
pub open spec fn table_view(t: Seq<HostsEntry>) -> Seq<(Seq<u8>, Seq<Seq<u8>>)> {
    Seq::new(t.len(), |i: int| (t[i].addr@, t[i].names.deep_view()))
}

/// The entry a line contributes: one pair when it has an address and at
/// least one name, nothing otherwise.
pub open spec fn line_entry_seq(l: Seq<u8>) -> Seq<(Seq<u8>, Seq<Seq<u8>>)> {
    let ts = spec_line_tokens(l);
    if ts.len() >= 2 {
        seq![(ts[0], ts.skip(1))]
    } else {
        Seq::empty()
    }
}

/// The table contributed by the first `n` lines.
pub open spec fn entries_upto(ls: Seq<Seq<u8>>, n: int) -> Seq<(Seq<u8>, Seq<Seq<u8>>)>
    decreases n,
{
    if n <= 0 {
        Seq::empty()
    } else {
        entries_upto(ls, n - 1) + line_entry_seq(ls[n - 1])
    }
}

/// The hosts table of a whole file: the entries of its lines, in order.
pub open spec fn spec_hosts_table(data: Seq<u8>) -> Seq<(Seq<u8>, Seq<Seq<u8>>)> {
    entries_upto(spec_hosts_lines(data), spec_hosts_lines(data).len() as int)
}

/// Builds the bridge's hosts table from the supplied hosts bytes: one
/// entry per line that carries an address field and at least one name.
pub fn parse_hosts_table(data: &[u8]) -> (r: Vec<HostsEntry>)
    ensures
        table_view(r@) == spec_hosts_table(data@),
{
    let lines = split_hosts_lines(data);
    let ghost ls = spec_hosts_lines(data@);
    let mut r: Vec<HostsEntry> = Vec::new();
    let mut i: usize = 0;
    proof {
        assert(table_view(r@) =~= entries_upto(ls, 0));
    }
    while i < lines.len()
        invariant
            i <= lines@.len(),
            lines.deep_view() == ls,
            ls == spec_hosts_lines(data@),
            table_view(r@) == entries_upto(ls, i as int),
        decreases lines@.len() - i,
    {
        let ghost r0 = r@;
        proof {
            assert(lines.deep_view()[i as int] == lines@[i as int].deep_view());
            assert(lines@[i as int].deep_view() =~= lines@[i as int]@);
            assert(ls[i as int] == lines@[i as int]@);
        }
        match hosts_line_entry(lines[i].as_slice()) {
            Some((addr, names)) => {
                let ghost ts = spec_line_tokens(ls[i as int]);
                proof {
                    assert(ts.len() >= 2);
                    assert(line_entry_seq(ls[i as int]) =~= seq![(ts[0], ts.skip(1))]);
                }
                let ghost a0 = addr@;
                let ghost n0 = names.deep_view();
                r.push(HostsEntry { addr, names });
                proof {
                    assert(table_view(r@) =~~= table_view(r0).push((a0, n0)));
                    assert(table_view(r0).push((a0, n0)) =~= table_view(r0) + seq![(a0, n0)]);
                    assert(table_view(r@) =~= entries_upto(ls, i as int + 1));
                }
            }
            None => {
                proof {
                    assert(spec_line_tokens(ls[i as int]).len() < 2);
                    assert(line_entry_seq(ls[i as int]) =~= Seq::<(Seq<u8>, Seq<Seq<u8>>)>::empty());
                    assert(table_view(r@) + line_entry_seq(ls[i as int]) =~= table_view(r@));
                }
            }
        }
        i = i + 1;
    }
    r
}

/// Whether `b` is an ASCII decimal digit.
pub open spec fn is_digit(b: u8) -> bool {
    48 <= b && b <= 57
}

/// Value of the first `n` bytes of a decimal token, most significant
/// digit first.
pub open spec fn dec_upto(t: Seq<u8>, n: int) -> int
    decreases n,
{
    if n <= 0 {
        0
    } else {
        dec_upto(t, n - 1) * 10 + (t[n - 1] - 48)
    }
}

/// Value of a whole decimal token.
pub open spec fn dec_value(t: Seq<u8>) -> int {
    dec_upto(t, t.len() as int)
}

/// A well-formed decimal octet of a dotted quad: one to three digits, no
/// leading zero unless the octet is exactly "0", value at most 255.
pub open spec fn valid_octet(t: Seq<u8>) -> bool {
    &&& 1 <= t.len() <= 3
    &&& forall|i: int| 0 <= i < t.len() ==> is_digit(t[i])
    &&& (t.len() == 1 || t[0] != 48)
    &&& dec_value(t) <= 255
}

/// The dot machine over an address token: `cur` is the part gathered so
/// far; a dot closes it.
pub open spec fn parts_from(t: Seq<u8>, cur: Seq<u8>) -> Seq<Seq<u8>>
    decreases t.len(),
{
    if t.len() == 0 {
        seq![cur]
    } else if t[0] == 46 {
        seq![cur] + parts_from(t.skip(1), Seq::empty())
    } else {
        parts_from(t.skip(1), cur.push(t[0]))
    }
}

/// The dot-separated parts of an address token.
pub open spec fn dot_parts(t: Seq<u8>) -> Seq<Seq<u8>> {
    parts_from(t, Seq::empty())
}

/// The IPv4 dotted-quad grammar: exactly four well-formed octets. The
/// result is the four octet values in order, or nothing when the token is
/// no dotted quad.
pub open spec fn spec_v4_literal(t: Seq<u8>) -> Option<Seq<u8>> {
    let ps = dot_parts(t);
    if ps.len() == 4 && valid_octet(ps[0]) && valid_octet(ps[1]) && valid_octet(ps[2])
        && valid_octet(ps[3]) {
        Some(
            seq![
                dec_value(ps[0]) as u8,
                dec_value(ps[1]) as u8,
                dec_value(ps[2]) as u8,
                dec_value(ps[3]) as u8,
            ],
        )
    } else {
        None
    }
}

fn split_dots(t: &[u8]) -> (r: Vec<Vec<u8>>)
    ensures
        r.deep_view() == dot_parts(t@),
{
    let n = t.len();
    let mut r: Vec<Vec<u8>> = Vec::new();
    let mut cur: Vec<u8> = Vec::new();
    let mut i: usize = 0;
    proof {
        assert(t@.skip(0) =~= t@);
        assert(r.deep_view() =~= Seq::<Seq<u8>>::empty());
    }
    while i < n
        invariant
            i <= n,
            n == t@.len(),
            dot_parts(t@) == r.deep_view() + parts_from(t@.skip(i as int), cur@),
        decreases n - i,
    {
        let ghost rest = t@.skip(i as int);
        let ghost r0 = r.deep_view();
        let ghost c0 = cur@;
        proof {
            assert(rest[0] == t@[i as int]);
            lemma_skip_skip_one(t@, i as int);
        }
        let b = t[i];
        if b == 46 {
            r.push(cur);
            cur = Vec::new();
            proof {
                assert(r.deep_view() =~~= r0.push(c0));
                assert(parts_from(rest, c0) =~= seq![c0] + parts_from(rest.skip(1), cur@));
                assert(r0.push(c0) + parts_from(rest.skip(1), cur@) =~= r0 + (seq![c0]
                    + parts_from(rest.skip(1), cur@)));
            }
        } else {
            cur.push(b);
            proof {
                assert(cur@ =~= c0.push(rest[0]));
                assert(parts_from(rest, c0) =~= parts_from(rest.skip(1), c0.push(rest[0])));
            }
        }
        i = i + 1;
    }
    let ghost r0 = r.deep_view();
    let ghost c0 = cur@;
    proof {
        assert(t@.skip(i as int) =~= Seq::<u8>::empty());
        assert(parts_from(t@.skip(i as int), c0) =~= seq![c0]);
    }
    r.push(cur);
    proof {
        assert(r.deep_view() =~~= r0.push(c0));
        assert(r0.push(c0) =~= r0 + seq![c0]);
    }
    r
}

fn octet_value(p: &[u8]) -> (r: Option<u8>)
    ensures
        r matches Some(v) ==> valid_octet(p@) && v == dec_value(p@),
        r is None ==> !valid_octet(p@),
{
    if p.len() < 1 || p.len() > 3 {
        return None;
    }
    let n = p.len();
    let mut val: u32 = 0;
    let mut k: usize = 0;
    while k < n
        invariant
            k <= n,
            n == p@.len(),
            1 <= n <= 3,
            forall|m: int| 0 <= m < k ==> is_digit(p@[m]),
            val == dec_upto(p@, k as int),
            k == 0 ==> val == 0,
            k == 1 ==> val <= 9,
            k == 2 ==> val <= 99,
            k == 3 ==> val <= 999,
        decreases n - k,
    {
        let b = p[k];
        if b < 48 || b > 57 {
            return None;
        }
        val = val * 10 + (b - 48) as u32;
        k = k + 1;
    }
    if n > 1 && p[0] == 48 {
        return None;
    }
    if val > 255 {
        return None;
    }
    Some(val as u8)
}

/// Reads an IPv4 dotted-quad literal, exactly as the grammar names it.
pub fn parse_v4_literal(t: &[u8]) -> (r: Option<[u8; 4]>)
    ensures
        r matches Some(o) ==> spec_v4_literal(t@) == Some(o@),
        r is None ==> spec_v4_literal(t@) is None,
{
    broadcast use vstd::array::group_array_axioms;

    let parts = split_dots(t);
    let ghost ps = dot_parts(t@);
    if parts.len() != 4 {
        return None;
    }
    proof {
        assert forall|i: int| 0 <= i < 4 implies ps[i] == parts@[i]@ by {
            assert(parts.deep_view()[i] == parts@[i].deep_view());
            assert(parts@[i].deep_view() =~= parts@[i]@);
        }
    }
    let a = octet_value(parts[0].as_slice());
    let b = octet_value(parts[1].as_slice());
    let c = octet_value(parts[2].as_slice());
    let d = octet_value(parts[3].as_slice());
    match (a, b, c, d) {
        (Some(a), Some(b), Some(c), Some(d)) => {
            let o = [a, b, c, d];
            proof {
                assert(spec_v4_literal(t@) == Some(
                    seq![
                        dec_value(ps[0]) as u8,
                        dec_value(ps[1]) as u8,
                        dec_value(ps[2]) as u8,
                        dec_value(ps[3]) as u8,
                    ],
                ));
                assert(o@ =~= seq![
                    dec_value(ps[0]) as u8,
                    dec_value(ps[1]) as u8,
                    dec_value(ps[2]) as u8,
                    dec_value(ps[3]) as u8,
                ]);
            }
            Some(o)
        }
        _ => None,
    }
}

/// ASCII lowercase of one byte.
pub open spec fn lc(b: u8) -> u8 {
    if 65 <= b && b <= 90 {
        (b + 32) as u8
    } else {
        b
    }
}

/// ASCII lowercase of a byte string.
pub open spec fn lc_seq(s: Seq<u8>) -> Seq<u8> {
    s.map_values(|b: u8| lc(b))
}

/// A host name with one trailing dot stripped, as a fully qualified query
/// is matched against unqualified hosts entries.
pub open spec fn strip_dot(s: Seq<u8>) -> Seq<u8> {
    if s.len() > 0 && s[s.len() - 1] == 46 {
        s.drop_last()
    } else {
        s
    }
}

/// Whether an entry lists the host: some listed name equals the queried
/// name, ASCII case-insensitively, after the query's trailing dot is
/// stripped.
pub open spec fn entry_matches(e: (Seq<u8>, Seq<Seq<u8>>), host: Seq<u8>) -> bool {
    exists|j: int| 0 <= j < e.1.len() && lc_seq(e.1[j]) == lc_seq(strip_dot(host))
}

/// The address fields of the matching entries among the first `n`.
pub open spec fn matches_upto(
    t: Seq<(Seq<u8>, Seq<Seq<u8>>)>,
    host: Seq<u8>,
    n: int,
) -> Seq<Seq<u8>>
    decreases n,
{
    if n <= 0 {
        Seq::empty()
    } else {
        matches_upto(t, host, n - 1) + if entry_matches(t[n - 1], host) {
            seq![t[n - 1].0]
        } else {
            Seq::empty()
        }
    }
}

/// The address fields of every table entry that lists the host, in table
/// order.
pub open spec fn spec_hosts_matches(t: Seq<(Seq<u8>, Seq<Seq<u8>>)>, host: Seq<u8>) -> Seq<Seq<u8>> {
    matches_upto(t, host, t.len() as int)
}

/// Number of dots among the first `n` bytes of a name.
pub open spec fn count_dots_upto(h: Seq<u8>, n: int) -> int
    decreases n,
{
    if n <= 0 {
        0
    } else {
        count_dots_upto(h, n - 1) + if h[n - 1] == 46 {
            1int
        } else {
            0int
        }
    }
}

/// Number of labels of an unqualified name: one more than its dots, as
/// the engine counts them.
pub open spec fn label_count(h: Seq<u8>) -> int {
    count_dots_upto(h, h.len() as int) + 1
}

/// The nine bytes of the name of the local host.
pub open spec fn localhost_bytes() -> Seq<u8> {
    seq![108u8, 111u8, 99u8, 97u8, 108u8, 104u8, 111u8, 115u8, 116u8]
}

/// Whether the name lies in the local host's zone: it is that name, or a
/// subdomain of it, ASCII case-insensitively.
pub open spec fn is_localhost_name(h: Seq<u8>) -> bool {
    ||| lc_seq(h) == localhost_bytes()
    ||| (h.len() >= 10 && h[h.len() - 10] == 46 && lc_seq(h.skip(h.len() - 9))
        == localhost_bytes())
}

/// A name qualified with one search suffix.
pub open spec fn dotted(h: Seq<u8>, suffix: Seq<u8>) -> Seq<u8> {
    h + seq![46u8] + suffix
}

/// The name qualified with each of the first `n` suffixes, in order.
pub open spec fn qualified_upto(h: Seq<u8>, sfx: Seq<Seq<u8>>, n: int) -> Seq<Seq<u8>>
    decreases n,
{
    if n <= 0 {
        Seq::empty()
    } else {
        qualified_upto(h, sfx, n - 1) + seq![dotted(h, sfx[n - 1])]
    }
}

/// The candidate names a lookup tries, in order, as the engine builds
/// them: a fully qualified name stands alone; otherwise the raw name
/// comes first when its labels exceed the dot threshold or it lies in the
/// local host's zone, and last otherwise, around the suffix-qualified
/// forms.
pub open spec fn spec_candidates(h: Seq<u8>, ndots: int, sfx: Seq<Seq<u8>>) -> Seq<Seq<u8>> {
    if h.len() > 0 && h[h.len() - 1] == 46 {
        seq![h]
    } else {
        let qualified = qualified_upto(h, sfx, sfx.len() as int);
        if label_count(h) > ndots || is_localhost_name(h) {
            seq![h] + qualified
        } else {
            qualified + seq![h]
        }
    }
}

fn slice_to_vec(s: &[u8]) -> (r: Vec<u8>)
    ensures
        r@ == s@,
{
    let mut r: Vec<u8> = Vec::new();
    let mut k: usize = 0;
    while k < s.len()
        invariant
            k <= s@.len(),
            r@ == s@.take(k as int),
        decreases s@.len() - k,
    {
        r.push(s[k]);
        proof {
            assert(r@ =~= s@.take(k as int + 1));
        }
        k = k + 1;
    }
    proof {
        assert(s@.take(s@.len() as int) =~= s@);
    }
    r
}

fn name_is_localhost(host: &[u8]) -> (r: bool)
    ensures
        r == is_localhost_name(host@),
{
    let pattern: [u8; 9] = [108, 111, 99, 97, 108, 104, 111, 115, 116];
    proof {
        assert(pattern@ =~= localhost_bytes());
    }
    let n = host.len();
    if n == 9 {
        let mut k: usize = 0;
        while k < 9
            invariant
                k <= 9,
                host@.len() == 9,
                pattern@ == localhost_bytes(),
                forall|m: int| 0 <= m < k ==> lc(host@[m]) == localhost_bytes()[m],
            decreases 9 - k,
        {
            if lc_byte(host[k]) != pattern[k] {
                proof {
                    assert(lc_seq(host@)[k as int] == lc(host@[k as int]));
                    assert(lc_seq(host@) != localhost_bytes());
                    assert(!(host@.len() >= 10));
                }
                return false;
            }
            k = k + 1;
        }
        proof {
            assert forall|m: int| 0 <= m < 9 implies lc_seq(host@)[m] == localhost_bytes()[m] by {
                assert(lc_seq(host@)[m] == lc(host@[m]));
            }
            assert(lc_seq(host@) =~= localhost_bytes());
        }
        true
    } else if n >= 10 {
        if host[n - 10] != 46 {
            proof {
                assert(lc_seq(host@).len() == host@.len());
                assert(!is_localhost_name(host@));
            }
            return false;
        }
        let ghost t = host@.skip(host@.len() - 9);
        let mut k: usize = 0;
        while k < 9
            invariant
                k <= 9,
                host@.len() == n && n >= 10,
                t == host@.skip(host@.len() - 9),
                pattern@ == localhost_bytes(),
                forall|m: int| 0 <= m < k ==> lc(t[m]) == localhost_bytes()[m],
            decreases 9 - k,
        {
            proof {
                assert(t[k as int] == host@[host@.len() - 9 + k]);
            }
            if lc_byte(host[n - 9 + k]) != pattern[k] {
                proof {
                    assert(lc_seq(t)[k as int] == lc(t[k as int]));
                    assert(lc_seq(t) != localhost_bytes());
                    assert(lc_seq(host@).len() == host@.len());
                    assert(lc_seq(host@) != localhost_bytes());
                }
                return false;
            }
            k = k + 1;
        }
        proof {
            assert forall|m: int| 0 <= m < 9 implies lc_seq(t)[m] == localhost_bytes()[m] by {
                assert(lc_seq(t)[m] == lc(t[m]));
            }
            assert(lc_seq(t) =~= localhost_bytes());
        }
        true
    } else {
        proof {
            assert(lc_seq(host@).len() == host@.len());
        }
        false
    }
}

/// Builds the candidate names a lookup tries, exactly as the engine's
/// search qualification orders them. `suffixes` is the domain followed by
/// the search list.
pub fn candidate_names(host: &[u8], ndots: usize, suffixes: &Vec<Vec<u8>>) -> (r: Vec<Vec<u8>>)
    ensures
        r.deep_view() == spec_candidates(host@, ndots as int, suffixes.deep_view()),
{
    let mut r: Vec<Vec<u8>> = Vec::new();
    if host.len() > 0 && host[host.len() - 1] == 46 {
        r.push(slice_to_vec(host));
        proof {
            assert(r.deep_view() =~~= seq![host@]);
        }
        return r;
    }
    let n = host.len();
    let mut dots: usize = 0;
    let mut i: usize = 0;
    while i < n
        invariant
            i <= n,
            n == host@.len(),
            dots <= i,
            dots == count_dots_upto(host@, i as int),
        decreases n - i,
    {
        if host[i] == 46 {
            dots = dots + 1;
        }
        i = i + 1;
    }
    let raw_first = dots >= ndots || name_is_localhost(host);
    proof {
        assert((dots >= ndots) == (label_count(host@) > ndots as int));
    }
    if raw_first {
        r.push(slice_to_vec(host));
        proof {
            assert(r.deep_view() =~~= seq![host@]);
        }
    }
    let ghost base = r.deep_view();
    let ghost sfx = suffixes.deep_view();
    let mut j: usize = 0;
    proof {
        assert(base + qualified_upto(host@, sfx, 0) =~= base);
    }
    while j < suffixes.len()
        invariant
            j <= suffixes@.len(),
            sfx == suffixes.deep_view(),
            sfx.len() == suffixes@.len(),
            r.deep_view() == base + qualified_upto(host@, sfx, j as int),
        decreases suffixes@.len() - j,
    {
        let ghost r0 = r.deep_view();
        proof {
            assert(sfx[j as int] == suffixes@[j as int].deep_view());
            assert(suffixes@[j as int].deep_view() =~= suffixes@[j as int]@);
        }
        let mut cand: Vec<u8> = slice_to_vec(host);
        cand.push(46);
        proof {
            assert(cand@ =~= host@ + seq![46u8]);
        }
        let suffix = &suffixes[j];
        let mut k: usize = 0;
        while k < suffix.len()
            invariant
                k <= suffix@.len(),
                suffix@ == suffixes@[j as int]@,
                cand@ == host@ + seq![46u8] + suffix@.take(k as int),
            decreases suffix@.len() - k,
        {
            cand.push(suffix[k]);
            proof {
                assert(cand@ =~= host@ + seq![46u8] + suffix@.take(k as int + 1));
            }
            k = k + 1;
        }
        proof {
            assert(suffix@.take(suffix@.len() as int) =~= suffix@);
            assert(cand@ == dotted(host@, sfx[j as int]));
        }
        let ghost c0 = cand@;
        r.push(cand);
        proof {
            assert(r.deep_view() =~~= r0.push(c0));
            assert(r0.push(c0) =~= r0 + seq![c0]);
            assert(r.deep_view() =~= base + qualified_upto(host@, sfx, j as int + 1));
        }
        j = j + 1;
    }
    if !raw_first {
        let ghost r0 = r.deep_view();
        r.push(slice_to_vec(host));
        proof {
            assert(r.deep_view() =~~= r0.push(host@));
            assert(r0.push(host@) =~= r0 + seq![host@]);
        }
    }
    r
}

fn lc_byte(b: u8) -> (r: u8)
    ensures
        r == lc(b),
{
    if 65 <= b && b <= 90 {
        b + 32
    } else {
        b
    }
}

/// Whether two byte strings are equal up to ASCII case.
fn eq_ignore_ascii(a: &[u8], b: &[u8]) -> (r: bool)
    ensures
        r == (lc_seq(a@) == lc_seq(b@)),
{
    if a.len() != b.len() {
        proof {
            assert(lc_seq(a@).len() == a@.len());
            assert(lc_seq(b@).len() == b@.len());
        }
        return false;
    }
    let n = a.len();
    let mut k: usize = 0;
    while k < n
        invariant
            k <= n,
            n == a@.len() && n == b@.len(),
            forall|m: int| 0 <= m < k ==> lc(a@[m]) == lc(b@[m]),
        decreases n - k,
    {
        if lc_byte(a[k]) != lc_byte(b[k]) {
            proof {
                assert(lc_seq(a@)[k as int] == lc(a@[k as int]));
                assert(lc_seq(b@)[k as int] == lc(b@[k as int]));
            }
            return false;
        }
        k = k + 1;
    }
    proof {
        assert forall|m: int| 0 <= m < n implies lc_seq(a@)[m] == lc_seq(b@)[m] by {
            assert(lc_seq(a@)[m] == lc(a@[m]));
            assert(lc_seq(b@)[m] == lc(b@[m]));
        }
        assert(lc_seq(a@) =~= lc_seq(b@));
    }
    true
}

fn copy_bytes(v: &Vec<u8>) -> (r: Vec<u8>)
    ensures
        r@ == v@,
{
    let mut r: Vec<u8> = Vec::new();
    let mut k: usize = 0;
    while k < v.len()
        invariant
            k <= v@.len(),
            r@ == v@.take(k as int),
        decreases v@.len() - k,
    {
        r.push(v[k]);
        proof {
            assert(r@ =~= v@.take(k as int + 1));
        }
        k = k + 1;
    }
    proof {
        assert(v@.take(v@.len() as int) =~= v@);
    }
    r
}

fn entry_lists_host(names: &Vec<Vec<u8>>, stripped: &Vec<u8>) -> (r: bool)
    ensures
        r == exists|j: int|
            0 <= j < names.deep_view().len() && lc_seq(names.deep_view()[j]) == lc_seq(stripped@),
{
    let mut j: usize = 0;
    while j < names.len()
        invariant
            j <= names@.len(),
            names.deep_view().len() == names@.len(),
            forall|m: int| 0 <= m < j ==> lc_seq(names.deep_view()[m]) != lc_seq(stripped@),
        decreases names@.len() - j,
    {
        proof {
            assert(names.deep_view()[j as int] == names@[j as int].deep_view());
            assert(names@[j as int].deep_view() =~= names@[j as int]@);
        }
        if eq_ignore_ascii(names[j].as_slice(), stripped.as_slice()) {
            return true;
        }
        j = j + 1;
    }
    false
}

/// Looks the host up in the table: the address fields of every entry that
/// lists it, ASCII case-insensitively and with the query's one trailing
/// dot stripped, in table order.
pub fn hosts_lookup(table: &Vec<HostsEntry>, host: &[u8]) -> (r: Vec<Vec<u8>>)
    ensures
        r.deep_view() == spec_hosts_matches(table_view(table@), host@),
{
    let hlen: usize = if host.len() > 0 && host[host.len() - 1] == 46 {
        host.len() - 1
    } else {
        host.len()
    };
    let mut stripped: Vec<u8> = Vec::new();
    let mut k: usize = 0;
    while k < hlen
        invariant
            k <= hlen,
            hlen <= host@.len(),
            stripped@ == host@.take(k as int),
        decreases hlen - k,
    {
        stripped.push(host[k]);
        proof {
            assert(stripped@ =~= host@.take(k as int + 1));
        }
        k = k + 1;
    }
    proof {
        if host@.len() > 0 && host@[host@.len() - 1] == 46 {
            assert(strip_dot(host@) =~= host@.take(host@.len() - 1));
        } else {
            assert(strip_dot(host@) =~= host@.take(host@.len() as int));
        }
        assert(stripped@ == strip_dot(host@));
    }
    let ghost tv = table_view(table@);
    let mut r: Vec<Vec<u8>> = Vec::new();
    let mut i: usize = 0;
    proof {
        assert(r.deep_view() =~= matches_upto(tv, host@, 0));
    }
    while i < table.len()
        invariant
            i <= table@.len(),
            tv == table_view(table@),
            tv.len() == table@.len(),
            stripped@ == strip_dot(host@),
            r.deep_view() == matches_upto(tv, host@, i as int),
        decreases table@.len() - i,
    {
        let ghost r0 = r.deep_view();
        proof {
            assert(tv[i as int] == (table@[i as int].addr@, table@[i as int].names.deep_view()));
        }
        if entry_lists_host(&table[i].names, &stripped) {
            proof {
                let ns = table@[i as int].names.deep_view();
                let j0 = choose|j: int| 0 <= j < ns.len() && lc_seq(ns[j]) == lc_seq(stripped@);
                assert(tv[i as int].1[j0] == ns[j0]);
                assert(entry_matches(tv[i as int], host@));
            }
            let a = copy_bytes(&table[i].addr);
            let ghost a0 = a@;
            r.push(a);
            proof {
                assert(r.deep_view() =~~= r0.push(a0));
                assert(r0.push(a0) =~= r0 + seq![a0]);
                assert(r.deep_view() =~= matches_upto(tv, host@, i as int + 1));
            }
        } else {
            proof {
                assert(!entry_matches(tv[i as int], host@));
                assert(r0 + Seq::<Seq<u8>>::empty() =~= r0);
            }
        }
        i = i + 1;
    }
    r
}

} // verus!
