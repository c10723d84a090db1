//! Rendering of `/etc/hostname` and `/etc/hosts` for the installed system.
use vstd::prelude::*;
use vstd::string::*;
use crate::text::{cat, contains, has_infix, has_prefix, is_ws, lemma_segments_step,
    lemma_word_end_bounds, lemma_ws_end_bounds, lines_of, no_newline, same_text, segments,
    skip_word, skip_ws, starts_with, trim, trimmed, word_end, ws_end, ws_start};

verus! {

/// The text made of each line followed by a newline.
pub open spec fn concat_lines(l: Seq<Seq<char>>) -> Seq<char>
    decreases l.len(),
{
    if l.len() == 0 {
        Seq::empty()
    } else {
        concat_lines(l.drop_last()) + l.last().push('\n')
    }
}

/// The first whitespace-separated word of a line.
pub open spec fn first_word(s: Seq<char>) -> Seq<char> {
    let a = ws_end(s, 0);
    s.subrange(a, word_end(s, a))
}

/// The second whitespace-separated word of a line.
pub open spec fn second_word(s: Seq<char>) -> Seq<char> {
    let c = ws_end(s, word_end(s, ws_end(s, 0)));
    s.subrange(c, word_end(s, c))
}

/// A line that maps `localhost` to the loopback IPv4 address (`127.0.0.1 localhost ...`).
pub open spec fn is_localhost_entry(line: Seq<char>) -> bool {
    first_word(line) == "127.0.0.1"@ && second_word(line) == "localhost"@
}

/// A line that maps the address reserved for the machine's own name (`127.0.1.1 ...`).
pub open spec fn is_host_slot(line: Seq<char>) -> bool {
    has_prefix(trim(line), "127.0.1.1"@)
}

pub open spec fn host_line(h: Seq<char>) -> Seq<char> {
    "127.0.1.1\t"@ + h
}

pub open spec fn localhost_line() -> Seq<char> {
    "127.0.0.1\tlocalhost"@
}

pub open spec fn ipv6_lines() -> Seq<Seq<char>> {
    seq![
        "::1\tlocalhost ip6-localhost ip6-loopback"@,
        "ff02::1\tip6-allnodes"@,
        "ff02::2\tip6-allrouters"@,
    ]
}

/// One step of the scan over the existing lines: the lines kept so far, whether a localhost
/// entry was kept, and whether the host-name line was written. Of the host-name lines only the
/// first stays, rewritten; of the localhost entries only the first stays, as it is.
pub open spec fn scan_step(
    st: (Seq<Seq<char>>, bool, bool),
    line: Seq<char>,
    h: Seq<char>,
) -> (Seq<Seq<char>>, bool, bool) {
    if is_host_slot(line) {
        if st.2 {
            (st.0, st.1, true)
        } else {
            (st.0.push(host_line(h)), st.1, true)
        }
    } else if is_localhost_entry(line) {
        if st.1 {
            (st.0, true, st.2)
        } else {
            (st.0.push(line), true, st.2)
        }
    } else {
        (st.0.push(line), st.1, st.2)
    }
}

pub open spec fn scan(l: Seq<Seq<char>>, h: Seq<char>) -> (Seq<Seq<char>>, bool, bool)
    decreases l.len(),
{
    if l.len() == 0 {
        (Seq::empty(), false, false)
    } else {
        scan_step(scan(l.drop_last(), h), l.last(), h)
    }
}

/// The lines of the rewritten hosts file, before the IPv6 defaults.
pub open spec fn hosts_lines(existing: Seq<char>, h: Seq<char>) -> Seq<Seq<char>> {
    let st = scan(lines_of(existing), h);
    st.0 + (if st.1 {
        Seq::<Seq<char>>::empty()
    } else {
        seq![localhost_line()]
    }) + (if st.2 {
        Seq::<Seq<char>>::empty()
    } else {
        seq![host_line(h)]
    })
}

/// The rewritten hosts file: every existing line is kept but the `127.0.1.1` ones, of which
/// the first becomes `127.0.1.1<TAB>h` and the others go, and the `127.0.0.1 localhost`
/// entries after the first; a localhost entry and the host-name line are added when missing,
/// and the IPv6 defaults when no `::1` appears.
pub open spec fn hosts_text(existing: Seq<char>, h: Seq<char>) -> Seq<char> {
    let t = concat_lines(hosts_lines(existing, h));
    if has_infix(t, "::1"@) {
        t
    } else {
        t + concat_lines(ipv6_lines())
    }
}

pub open spec fn hostname_text(h: Seq<char>) -> Seq<char> {
    h.push('\n')
}

proof fn lemma_concat_push(l: Seq<Seq<char>>, x: Seq<char>)
    ensures
        concat_lines(l.push(x)) == concat_lines(l) + x.push('\n'),
{
    assert(l.push(x).drop_last() =~= l);
}

/// Appends `line` and a newline to `text`.
fn push_line(text: &mut String, line: &str)
    ensures
        final(text)@ == old(text)@ + line@.push('\n'),
{
    text.append(line);
    text.append("\n");
    proof {
        reveal_strlit("\n");
        assert(final(text)@ =~= old(text)@ + line@.push('\n'));
    }
}

/// Whether the line is a `127.0.0.1 localhost` entry.
pub fn localhost_entry(line: &str) -> (r: bool)
    ensures
        r == is_localhost_entry(line@),
{
    let a = skip_ws(line, 0);
    let b = skip_word(line, a);
    let c = skip_ws(line, b);
    let d = skip_word(line, c);
    proof {
        lemma_ws_end_bounds(line@, 0);
        lemma_word_end_bounds(line@, a as int);
        lemma_ws_end_bounds(line@, b as int);
        lemma_word_end_bounds(line@, c as int);
    }
    same_text(line.substring_char(a, b), "127.0.0.1") && same_text(
        line.substring_char(c, d),
        "localhost",
    )
}

fn scan_line(
    text: &mut String,
    has_lh: &mut bool,
    wrote: &mut bool,
    line: &str,
    h: &str,
    Ghost(st): Ghost<(Seq<Seq<char>>, bool, bool)>,
)
    requires
        old(text)@ == concat_lines(st.0),
        *old(has_lh) == st.1,
        *old(wrote) == st.2,
    ensures
        final(text)@ == concat_lines(scan_step(st, line@, h@).0),
        *final(has_lh) == scan_step(st, line@, h@).1,
        *final(wrote) == scan_step(st, line@, h@).2,
{
    let t = trimmed(line);
    if starts_with(t.as_str(), "127.0.1.1") {
        if !*wrote {
            let hl = cat("127.0.1.1\t", h);
            push_line(text, hl.as_str());
            proof {
                lemma_concat_push(st.0, host_line(h@));
            }
            *wrote = true;
        }
    } else if localhost_entry(line) {
        if !*has_lh {
            push_line(text, line);
            proof {
                lemma_concat_push(st.0, line@);
            }
            *has_lh = true;
        }
    } else {
        push_line(text, line);
        proof {
            lemma_concat_push(st.0, line@);
        }
    }
}

/// The new `/etc/hosts` contents, from the existing ones and the host name.
pub fn render_hosts(existing: &str, hostname: &str) -> (r: String)
    ensures
        r@ == hosts_text(existing@, hostname@),
{
    let n = existing.unicode_len();
    let mut text = String::new();
    let mut has_lh = false;
    let mut wrote = false;
    let mut start: usize = 0;
    let mut i: usize = 0;
    let ghost mut done: Seq<Seq<char>> = Seq::empty();
    proof {
        assert(existing@.subrange(0, 0) =~= Seq::<char>::empty());
        assert(segments(Seq::<char>::empty()) =~= done.push(existing@.subrange(0, 0)));
    }
    while i < n
        invariant
            n == existing@.len(),
            start <= i <= n,
            segments(existing@.subrange(0, i as int)) == done.push(
                existing@.subrange(start as int, i as int),
            ),
            text@ == concat_lines(scan(done, hostname@).0),
            has_lh == scan(done, hostname@).1,
            wrote == scan(done, hostname@).2,
        decreases n - i,
    {
        proof {
            lemma_segments_step(existing@, i as int);
        }
        if existing.get_char(i) == '\n' {
            let line = existing.substring_char(start, i);
            scan_line(&mut text, &mut has_lh, &mut wrote, line, hostname, Ghost(scan(done, hostname@)));
            proof {
                assert(done.push(line@).drop_last() =~= done);
                done = done.push(line@);
                assert(existing@.subrange(i + 1, i + 1) =~= Seq::<char>::empty());
            }
            start = i + 1;
        } else {
            proof {
                assert(existing@.subrange(start as int, i + 1) =~= existing@.subrange(
                    start as int,
                    i as int,
                ).push(existing@[i as int]));
            }
        }
        i = i + 1;
    }
    proof {
        assert(existing@.subrange(0, n as int) =~= existing@);
    }
    if start < n {
        let line = existing.substring_char(start, n);
        scan_line(&mut text, &mut has_lh, &mut wrote, line, hostname, Ghost(scan(done, hostname@)));
        proof {
            assert(done.push(line@).drop_last() =~= done);
            assert(lines_of(existing@) == done.push(line@));
            done = done.push(line@);
        }
    } else {
        proof {
            assert(lines_of(existing@) =~= done);
        }
    }
    let ghost st = scan(done, hostname@);
    let ghost mut out = st.0;
    if !has_lh {
        push_line(&mut text, "127.0.0.1\tlocalhost");
        proof {
            lemma_concat_push(out, localhost_line());
            out = out.push(localhost_line());
        }
    }
    if !wrote {
        let hl = cat("127.0.1.1\t", hostname);
        push_line(&mut text, hl.as_str());
        proof {
            lemma_concat_push(out, host_line(hostname@));
            out = out.push(host_line(hostname@));
        }
    }
    proof {
        assert(out =~= hosts_lines(existing@, hostname@));
    }
    if !contains(text.as_str(), "::1") {
        let ghost t = text@;
        push_line(&mut text, "::1\tlocalhost ip6-localhost ip6-loopback");
        push_line(&mut text, "ff02::1\tip6-allnodes");
        push_line(&mut text, "ff02::2\tip6-allrouters");
        proof {
            let v = ipv6_lines();
            lemma_concat_push(Seq::empty(), v[0]);
            lemma_concat_push(seq![v[0]], v[1]);
            lemma_concat_push(seq![v[0], v[1]], v[2]);
            assert(seq![v[0]] =~= Seq::<Seq<char>>::empty().push(v[0]));
            assert(seq![v[0], v[1]] =~= seq![v[0]].push(v[1]));
            assert(v =~= seq![v[0], v[1]].push(v[2]));
            assert(text@ =~= t + concat_lines(v));
        }
    }
    text
}

/// The new `/etc/hostname` contents: the name on a line of its own.
pub fn render_hostname(hostname: &str) -> (r: String)
    ensures
        r@ == hostname_text(hostname@),
{
    let r = cat(hostname, "\n");
    proof {
        reveal_strlit("\n");
        assert(r@ =~= hostname@.push('\n'));
    }
    r
}

proof fn lemma_segments_shape(s: Seq<char>)
    ensures
        segments(s).len() >= 1,
        forall|k: int| 0 <= k < segments(s).len() ==> no_newline(#[trigger] segments(s)[k]),
    decreases s.len(),
{
    if s.len() > 0 {
        lemma_segments_shape(s.drop_last());
        let r = segments(s.drop_last());
        if s.last() != '\n' {
            let x = r.last().push(s.last());
            assert(no_newline(x)) by {
                assert(no_newline(r[r.len() - 1]));
            }
        }
    }
}

proof fn lemma_segments_append(x: Seq<char>, y: Seq<char>)
    requires
        no_newline(y),
    ensures
        segments(x + y) == segments(x).update(segments(x).len() - 1, segments(x).last() + y),
    decreases y.len(),
{
    lemma_segments_shape(x);
    let g = segments(x);
    if y.len() == 0 {
        assert(x + y =~= x);
        assert(g.last() + y =~= g.last());
        assert(g.update(g.len() - 1, g.last()) =~= g);
    } else {
        let y0 = y.drop_last();
        lemma_segments_append(x, y0);
        assert((x + y).drop_last() =~= x + y0);
        assert((x + y).last() == y.last());
        assert((g.last() + y0).push(y.last()) =~= g.last() + y);
        assert(segments(x + y) =~= g.update(g.len() - 1, g.last() + y));
    }
}

proof fn lemma_segments_concat(l: Seq<Seq<char>>)
    requires
        forall|k: int| 0 <= k < l.len() ==> no_newline(#[trigger] l[k]),
    ensures
        segments(concat_lines(l)) == l.push(Seq::empty()),
    decreases l.len(),
{
    if l.len() == 0 {
        assert(segments(Seq::<char>::empty()) =~= l.push(Seq::empty()));
    } else {
        let l0 = l.drop_last();
        lemma_segments_concat(l0);
        let c0 = concat_lines(l0);
        assert(no_newline(l[l.len() - 1]));
        lemma_segments_append(c0, l.last());
        let c1 = c0 + l.last();
        assert(concat_lines(l) =~= c1.push('\n'));
        assert(concat_lines(l).drop_last() =~= c1);
        assert(segments(c1) =~= l);
        assert(segments(concat_lines(l)) =~= l.push(Seq::empty()));
    }
}

proof fn lemma_lines_of_concat(l: Seq<Seq<char>>)
    requires
        forall|k: int| 0 <= k < l.len() ==> no_newline(#[trigger] l[k]),
    ensures
        lines_of(concat_lines(l)) == l,
{
    lemma_segments_concat(l);
    assert(l.push(Seq::empty()).drop_last() =~= l);
}

proof fn lemma_concat_add(a: Seq<Seq<char>>, b: Seq<Seq<char>>)
    ensures
        concat_lines(a + b) == concat_lines(a) + concat_lines(b),
    decreases b.len(),
{
    if b.len() == 0 {
        assert(a + b =~= a);
        assert(concat_lines(a) + concat_lines(b) =~= concat_lines(a));
    } else {
        let b0 = b.drop_last();
        lemma_concat_add(a, b0);
        assert((a + b).drop_last() =~= a + b0);
        assert(concat_lines(a) + concat_lines(b0) + b.last().push('\n') =~= concat_lines(a) + (
        concat_lines(b0) + b.last().push('\n')));
    }
}

proof fn lemma_ws_start_keeps(s: Seq<char>, j: int, k: int)
    requires
        0 <= k < j <= s.len(),
        !is_ws(s[k]),
    ensures
        ws_start(s, j) > k,
    decreases j,
{
    if is_ws(s[j - 1]) {
        lemma_ws_start_keeps(s, j - 1, k);
    }
}

/// Trimming keeps a prefix whose first and last characters are not whitespace.
proof fn lemma_trim_keeps_prefix(s: Seq<char>, p: Seq<char>)
    requires
        p.len() > 0,
        !is_ws(p[0]),
        !is_ws(p[p.len() - 1]),
        has_prefix(s, p),
    ensures
        has_prefix(trim(s), p),
{
    assert(s.subrange(0, p.len() as int)[0] == p[0]);
    assert(ws_end(s, 0) == 0);
    assert(s.subrange(0, p.len() as int)[p.len() - 1] == p[p.len() - 1]);
    lemma_ws_start_keeps(s, s.len() as int, p.len() - 1);
    crate::text::lemma_ws_start_bounds(s, s.len() as int);
    let b = ws_start(s, s.len() as int);
    assert(trim(s) == s.subrange(0, b));
    assert forall|k: int| 0 <= k < p.len() implies trim(s).subrange(0, p.len() as int)[k] == p[k] by {
        assert(s.subrange(0, p.len() as int)[k] == s[k]);
    }
    assert(trim(s).subrange(0, p.len() as int) =~= p);
}

proof fn lemma_word_end_at(s: Seq<char>, i: int, j: int)
    requires
        0 <= i <= j <= s.len(),
        forall|k: int| i <= k < j ==> !is_ws(#[trigger] s[k]),
        j == s.len() || is_ws(s[j]),
    ensures
        word_end(s, i) == j,
    decreases j - i,
{
    if i < j {
        lemma_word_end_at(s, i + 1, j);
    }
}

/// A line whose first character is not whitespace has a first word that begins there.
proof fn lemma_first_word_from_start(s: Seq<char>)
    requires
        s.len() > 0,
        !is_ws(s[0]),
    ensures
        ws_end(s, 0) == 0,
        first_word(s) == s.subrange(0, word_end(s, 0)),
        word_end(s, 0) <= s.len(),
        forall|k: int| 0 <= k < first_word(s).len() ==> #[trigger] first_word(s)[k] == s[k],
{
    lemma_word_end_bounds(s, 0);
}

proof fn lemma_entry_not_slot(line: Seq<char>)
    ensures
        !(is_localhost_entry(line) && is_host_slot(line)),
{
    reveal_strlit("127.0.1.1");
    reveal_strlit("127.0.0.1");
    reveal_strlit("localhost");
    if is_localhost_entry(line) && is_host_slot(line) {
        let a = ws_end(line, 0);
        lemma_ws_end_bounds(line, 0);
        lemma_word_end_bounds(line, a);
        let fw = first_word(line);
        assert(fw.len() == 9);
        assert(fw[6] == line[a + 6]);
        let t = trim(line);
        crate::text::lemma_ws_start_bounds(line, line.len() as int);
        assert(t.len() >= 9);
        assert(t == line.subrange(a, ws_start(line, line.len() as int)));
        assert(t.subrange(0, 9)[6] == t[6]);
        assert(t[6] == line[a + 6]);
    }
}

proof fn lemma_line_kinds(h: Seq<char>)
    ensures
        is_host_slot(host_line(h)),
        !is_localhost_entry(host_line(h)),
        is_localhost_entry(localhost_line()),
        !is_host_slot(localhost_line()),
        forall|k: int| 0 <= k < 3 ==> !is_host_slot(#[trigger] ipv6_lines()[k]),
        forall|k: int| 0 <= k < 3 ==> !is_localhost_entry(#[trigger] ipv6_lines()[k]),
        forall|k: int| 0 <= k < 3 ==> no_newline(#[trigger] ipv6_lines()[k]),
        no_newline(localhost_line()),
        no_newline(h) ==> no_newline(host_line(h)),
        has_infix(concat_lines(ipv6_lines()), "::1"@),
{
    reveal_strlit("127.0.1.1\t");
    reveal_strlit("127.0.1.1");
    reveal_strlit("127.0.0.1");
    reveal_strlit("localhost");
    reveal_strlit("127.0.0.1\tlocalhost");
    reveal_strlit("::1\tlocalhost ip6-localhost ip6-loopback");
    reveal_strlit("ff02::1\tip6-allnodes");
    reveal_strlit("ff02::2\tip6-allrouters");
    reveal_strlit("::1");
    let p1 = "127.0.1.1"@;
    let p0 = "127.0.0.1"@;
    let hl = host_line(h);
    assert(hl.subrange(0, 9) =~= p1);
    lemma_trim_keeps_prefix(hl, p1);
    lemma_first_word_from_start(hl);
    if first_word(hl) == p0 {
        assert(first_word(hl)[6] == hl[6]);
    }
    let lh = localhost_line();
    assert(lh.subrange(0, 9) =~= p0);
    lemma_trim_keeps_prefix(lh, p0);
    assert(trim(lh).subrange(0, 9)[6] == '0');
    lemma_first_word_from_start(lh);
    lemma_word_end_at(lh, 0, 9);
    assert(ws_end(lh, 10) == 10);
    assert(ws_end(lh, 9) == 10);
    lemma_word_end_at(lh, 10, 19);
    assert(first_word(lh) =~= p0);
    assert(second_word(lh) =~= "localhost"@);
    assert forall|k: int| 0 <= k < 3 implies !is_host_slot(#[trigger] ipv6_lines()[k])
        && !is_localhost_entry(ipv6_lines()[k]) by {
        let x = ipv6_lines()[k];
        assert(ws_end(x, 0) == 0);
        lemma_ws_start_bounds_pos(x);
        if has_prefix(trim(x), p1) {
            assert(trim(x)[0] == x[0]);
            assert(trim(x).subrange(0, 9)[0] == '1');
        }
        lemma_first_word_from_start(x);
        if first_word(x) == p0 {
            assert(first_word(x)[0] == x[0]);
        }
    }
    if no_newline(h) {
        assert forall|k: int| 0 <= k < hl.len() implies hl[k] != '\n' by {
            if k >= 10 {
                assert(hl[k] == h[k - 10]);
            }
        }
    }
    let v = ipv6_lines();
    lemma_concat_push(Seq::empty(), v[0]);
    assert(seq![v[0]] =~= Seq::<Seq<char>>::empty().push(v[0]));
    lemma_concat_add(seq![v[0]], seq![v[1], v[2]]);
    assert(v =~= seq![v[0]] + seq![v[1], v[2]]);
    assert(concat_lines(v).subrange(0, 3) =~= "::1"@);
    assert(occurs_at_zero(concat_lines(v), "::1"@));
}

spec fn occurs_at_zero(s: Seq<char>, p: Seq<char>) -> bool {
    crate::text::occurs_at(s, p, 0)
}

proof fn lemma_ws_start_bounds_pos(x: Seq<char>)
    requires
        x.len() > 0,
        !is_ws(x[0]),
    ensures
        ws_start(x, x.len() as int) > 0,
{
    lemma_ws_start_keeps(x, x.len() as int, 0);
}

/// The lines of `l` that are not host-name lines, in order.
pub open spec fn other_lines(l: Seq<Seq<char>>) -> Seq<Seq<char>>
    decreases l.len(),
{
    if l.len() == 0 {
        Seq::empty()
    } else if is_host_slot(l.last()) {
        other_lines(l.drop_last())
    } else {
        other_lines(l.drop_last()).push(l.last())
    }
}

proof fn lemma_other_lines_add(a: Seq<Seq<char>>, b: Seq<Seq<char>>)
    ensures
        other_lines(a + b) == other_lines(a) + other_lines(b),
    decreases b.len(),
{
    if b.len() == 0 {
        assert(a + b =~= a);
        assert(other_lines(a) + other_lines(b) =~= other_lines(a));
    } else {
        lemma_other_lines_add(a, b.drop_last());
        assert((a + b).drop_last() =~= a + b.drop_last());
        if !is_host_slot(b.last()) {
            assert(other_lines(a) + other_lines(b.drop_last()).push(b.last()) =~= (other_lines(a)
                + other_lines(b.drop_last())).push(b.last()));
        }
    }
}

pub open spec fn all_no_newline(l: Seq<Seq<char>>) -> bool {
    forall|k: int| 0 <= k < l.len() ==> no_newline(#[trigger] l[k])
}

proof fn lemma_segments_no_newline(s: Seq<char>)
    ensures
        all_no_newline(lines_of(s)),
{
    lemma_segments_shape(s);
    let g = segments(s);
    assert forall|k: int| 0 <= k < lines_of(s).len() implies no_newline(#[trigger] lines_of(s)[k]) by {
        assert(lines_of(s)[k] == g[k]);
    }
}

proof fn lemma_lines_with_ipv6(m: Seq<Seq<char>>)
    requires
        all_no_newline(m),
    ensures
        lines_of(concat_lines(m) + concat_lines(ipv6_lines())) == m + ipv6_lines(),
{
    lemma_concat_add(m, ipv6_lines());
    lemma_line_kinds(Seq::empty());
    assert forall|k: int| 0 <= k < (m + ipv6_lines()).len() implies no_newline(
        #[trigger] (m + ipv6_lines())[k],
    ) by {
        if k < m.len() {
            assert((m + ipv6_lines())[k] == m[k]);
        } else {
            assert((m + ipv6_lines())[k] == ipv6_lines()[k - m.len()]);
        }
    }
    lemma_lines_of_concat(m + ipv6_lines());
}

pub open spec fn unique_slot(l: Seq<Seq<char>>, h: Seq<char>) -> bool {
    &&& forall|i: int| 0 <= i < l.len() && is_host_slot(#[trigger] l[i]) ==> l[i] == host_line(h)
    &&& forall|i: int, j: int|
        0 <= i < l.len() && 0 <= j < l.len() && is_host_slot(#[trigger] l[i]) && is_host_slot(
            #[trigger] l[j],
        ) ==> i == j
}

pub open spec fn unique_entry(l: Seq<Seq<char>>) -> bool {
    forall|i: int, j: int|
        0 <= i < l.len() && 0 <= j < l.len() && is_localhost_entry(#[trigger] l[i])
            && is_localhost_entry(#[trigger] l[j]) ==> i == j
}

pub open spec fn has_slot(l: Seq<Seq<char>>) -> bool {
    exists|i: int| 0 <= i < l.len() && is_host_slot(#[trigger] l[i])
}

pub open spec fn has_entry(l: Seq<Seq<char>>) -> bool {
    exists|i: int| 0 <= i < l.len() && is_localhost_entry(#[trigger] l[i])
}

/// The existing lines that the rewrite keeps as they are, in order: all but the host-name
/// lines and the localhost entries after the first.
pub open spec fn kept_lines(l: Seq<Seq<char>>) -> Seq<Seq<char>>
    decreases l.len(),
{
    if l.len() == 0 {
        Seq::empty()
    } else if is_host_slot(l.last()) || (is_localhost_entry(l.last()) && has_entry(l.drop_last())) {
        kept_lines(l.drop_last())
    } else {
        kept_lines(l.drop_last()).push(l.last())
    }
}

/// Each line is the host-name line for `h`, or a line of `l` that is not a host-name line.
pub open spec fn from_input(out: Seq<Seq<char>>, l: Seq<Seq<char>>, h: Seq<char>) -> bool {
    forall|i: int|
        0 <= i < out.len() ==> #[trigger] out[i] == host_line(h) || exists|j: int|
            0 <= j < l.len() && l[j] == out[i] && !is_host_slot(l[j])
}

proof fn lemma_has_push(l: Seq<Seq<char>>, x: Seq<char>)
    ensures
        has_slot(l.push(x)) == (has_slot(l) || is_host_slot(x)),
        has_entry(l.push(x)) == (has_entry(l) || is_localhost_entry(x)),
{
    let m = l.push(x);
    if has_slot(l) {
        let i = choose|i: int| 0 <= i < l.len() && is_host_slot(#[trigger] l[i]);
        assert(m[i] == l[i]);
    }
    if has_entry(l) {
        let i = choose|i: int| 0 <= i < l.len() && is_localhost_entry(#[trigger] l[i]);
        assert(m[i] == l[i]);
    }
    if has_slot(m) {
        let i = choose|i: int| 0 <= i < m.len() && is_host_slot(#[trigger] m[i]);
        if i < l.len() {
            assert(m[i] == l[i]);
        }
    }
    if has_entry(m) {
        let i = choose|i: int| 0 <= i < m.len() && is_localhost_entry(#[trigger] m[i]);
        if i < l.len() {
            assert(m[i] == l[i]);
        }
    }
    assert(m[l.len() as int] == x);
}

proof fn lemma_unique_push(l: Seq<Seq<char>>, x: Seq<char>, h: Seq<char>)
    requires
        unique_slot(l, h),
        unique_entry(l),
        is_host_slot(x) ==> !has_slot(l) && x == host_line(h),
        is_localhost_entry(x) ==> !has_entry(l),
    ensures
        unique_slot(l.push(x), h),
        unique_entry(l.push(x)),
{
    let m = l.push(x);
    assert forall|i: int| 0 <= i < m.len() && is_host_slot(#[trigger] m[i]) implies m[i] == host_line(
        h,
    ) by {
        if i < l.len() {
            assert(m[i] == l[i]);
        }
    }
    assert forall|i: int, j: int|
        0 <= i < m.len() && 0 <= j < m.len() && is_host_slot(#[trigger] m[i]) && is_host_slot(
            #[trigger] m[j],
        ) implies i == j by {
        if i < l.len() && j < l.len() {
            assert(m[i] == l[i] && m[j] == l[j]);
        } else if i < l.len() {
            assert(m[i] == l[i]);
        } else if j < l.len() {
            assert(m[j] == l[j]);
        }
    }
    assert forall|i: int, j: int|
        0 <= i < m.len() && 0 <= j < m.len() && is_localhost_entry(#[trigger] m[i])
            && is_localhost_entry(#[trigger] m[j]) implies i == j by {
        if i < l.len() && j < l.len() {
            assert(m[i] == l[i] && m[j] == l[j]);
        } else if i < l.len() {
            assert(m[i] == l[i]);
        } else if j < l.len() {
            assert(m[j] == l[j]);
        }
    }
}

#[verifier::rlimit(50)]
proof fn lemma_scan_facts(l: Seq<Seq<char>>, h: Seq<char>)
    ensures
        unique_slot(scan(l, h).0, h),
        unique_entry(scan(l, h).0),
        scan(l, h).2 == has_slot(scan(l, h).0),
        scan(l, h).2 == has_slot(l),
        scan(l, h).1 == has_entry(scan(l, h).0),
        scan(l, h).1 == has_entry(l),
        other_lines(scan(l, h).0) == kept_lines(l),
        from_input(scan(l, h).0, l, h),
        all_no_newline(l) && no_newline(h) ==> all_no_newline(scan(l, h).0),
    decreases l.len(),
{
    lemma_line_kinds(h);
    if l.len() == 0 {
        assert(other_lines(Seq::<Seq<char>>::empty()) =~= Seq::<Seq<char>>::empty());
    } else {
        let l0 = l.drop_last();
        lemma_scan_facts(l0, h);
        let st = scan(l0, h);
        let x = l.last();
        let o = scan(l, h).0;
        assert(l0.push(x) =~= l);
        lemma_has_push(l0, x);
        lemma_entry_not_slot(x);
        if o.len() > st.0.len() {
            assert(o.drop_last() =~= st.0);
            lemma_has_push(st.0, o.last());
            lemma_unique_push(st.0, o.last(), h);
        }
        assert forall|i: int| 0 <= i < o.len() implies #[trigger] o[i] == host_line(h) || exists|
            j: int,
        | 0 <= j < l.len() && l[j] == o[i] && !is_host_slot(l[j]) by {
            if i < st.0.len() {
                assert(o[i] == st.0[i]);
                if o[i] != host_line(h) {
                    let j = choose|j: int| 0 <= j < l0.len() && l0[j] == st.0[i] && !is_host_slot(l0[j]);
                    assert(l[j] == l0[j]);
                }
            } else {
                assert(l[l.len() - 1] == x);
            }
        }
        if all_no_newline(l) && no_newline(h) {
            assert forall|k: int| 0 <= k < l0.len() implies no_newline(#[trigger] l0[k]) by {
                assert(l0[k] == l[k]);
            }
            assert(no_newline(l[l.len() - 1]));
            assert forall|k: int| 0 <= k < o.len() implies no_newline(#[trigger] o[k]) by {
                if k < st.0.len() {
                    assert(o[k] == st.0[k]);
                }
            }
        }
    }
}

/// A scan over lines that hold at most one host-name line, the one for `h`, and at most one
/// localhost entry changes nothing.
proof fn lemma_scan_stable(l: Seq<Seq<char>>, h: Seq<char>)
    requires
        unique_slot(l, h),
        unique_entry(l),
    ensures
        scan(l, h).0 == l,
        scan(l, h).1 == has_entry(l),
        scan(l, h).2 == has_slot(l),
    decreases l.len(),
{
    lemma_line_kinds(h);
    if l.len() > 0 {
        let l0 = l.drop_last();
        let x = l.last();
        assert(l0.push(x) =~= l);
        assert forall|i: int, j: int|
            0 <= i < l0.len() && 0 <= j < l0.len() && is_host_slot(#[trigger] l0[i])
                && is_host_slot(#[trigger] l0[j]) implies i == j by {
            assert(l[i] == l0[i] && l[j] == l0[j]);
        }
        assert forall|i: int, j: int|
            0 <= i < l0.len() && 0 <= j < l0.len() && is_localhost_entry(#[trigger] l0[i])
                && is_localhost_entry(#[trigger] l0[j]) implies i == j by {
            assert(l[i] == l0[i] && l[j] == l0[j]);
        }
        assert forall|i: int| 0 <= i < l0.len() && is_host_slot(#[trigger] l0[i]) implies l0[i]
            == host_line(h) by {
            assert(l[i] == l0[i]);
        }
        lemma_scan_stable(l0, h);
        lemma_has_push(l0, x);
        lemma_entry_not_slot(x);
        if has_slot(l0) && is_host_slot(x) {
            let i = choose|i: int| 0 <= i < l0.len() && is_host_slot(#[trigger] l0[i]);
            assert(l[i] == l0[i]);
            assert(is_host_slot(l[l.len() - 1]));
        }
        if has_entry(l0) && is_localhost_entry(x) {
            let i = choose|i: int| 0 <= i < l0.len() && is_localhost_entry(#[trigger] l0[i]);
            assert(l[i] == l0[i]);
            assert(is_localhost_entry(l[l.len() - 1]));
        }
        if is_host_slot(x) {
            assert(l[l.len() - 1] == host_line(h));
        }
    }
}

proof fn lemma_other_lines_plain(l: Seq<Seq<char>>)
    requires
        !has_slot(l),
    ensures
        other_lines(l) == l,
    decreases l.len(),
{
    if l.len() > 0 {
        let l0 = l.drop_last();
        assert(l0.push(l.last()) =~= l);
        lemma_has_push(l0, l.last());
        lemma_other_lines_plain(l0);
    } else {
        assert(other_lines(l) =~= l);
    }
}

/// The lines that a scan has produced stay in front of what later lines add.
proof fn lemma_scan_prefix(l: Seq<Seq<char>>, k: int, h: Seq<char>)
    requires
        0 <= k <= l.len(),
    ensures
        scan(l.subrange(0, k), h).0.len() <= scan(l, h).0.len(),
        scan(l, h).0.subrange(0, scan(l.subrange(0, k), h).0.len() as int) == scan(
            l.subrange(0, k),
            h,
        ).0,
    decreases l.len(),
{
    let p = scan(l.subrange(0, k), h).0;
    if k == l.len() {
        assert(l.subrange(0, k) =~= l);
        assert(scan(l, h).0.subrange(0, p.len() as int) =~= p);
    } else {
        let l0 = l.drop_last();
        assert(l0.subrange(0, k) =~= l.subrange(0, k));
        lemma_scan_prefix(l0, k, h);
        let q = scan(l0, h).0;
        let o = scan(l, h).0;
        assert(o.subrange(0, p.len() as int) =~= q.subrange(0, p.len() as int));
    }
}

/// Facts about the lines of the rewritten file, shared by the laws below.
proof fn lemma_hosts_lines_facts(e: Seq<char>, h: Seq<char>)
    requires
        no_newline(h),
    ensures
        unique_slot(hosts_lines(e, h), h),
        unique_entry(hosts_lines(e, h)),
        has_slot(hosts_lines(e, h)),
        has_entry(hosts_lines(e, h)),
        all_no_newline(hosts_lines(e, h)),
        other_lines(hosts_lines(e, h)) == kept_lines(lines_of(e)) + (if scan(lines_of(e), h).1 {
            Seq::<Seq<char>>::empty()
        } else {
            seq![localhost_line()]
        }),
        forall|i: int|
            0 <= i < hosts_lines(e, h).len() ==> #[trigger] hosts_lines(e, h)[i] == host_line(h)
                || hosts_lines(e, h)[i] == localhost_line() || exists|j: int|
                0 <= j < lines_of(e).len() && lines_of(e)[j] == hosts_lines(e, h)[i]
                    && !is_host_slot(lines_of(e)[j]),
        hosts_lines(e, h).subrange(0, scan(lines_of(e), h).0.len() as int) == scan(lines_of(e), h).0,
        lines_of(hosts_text(e, h)) == hosts_lines(e, h) || lines_of(hosts_text(e, h))
            == hosts_lines(e, h) + ipv6_lines(),
{
    lemma_line_kinds(h);
    let l = lines_of(e);
    lemma_segments_no_newline(e);
    lemma_scan_facts(l, h);
    let st = scan(l, h);
    let a: Seq<Seq<char>> = if st.1 {
        Seq::empty()
    } else {
        seq![localhost_line()]
    };
    let b: Seq<Seq<char>> = if st.2 {
        Seq::empty()
    } else {
        seq![host_line(h)]
    };
    let m = hosts_lines(e, h);
    let m1 = st.0 + a;
    assert(m == m1 + b);
    if !st.1 {
        assert(m1 =~= st.0.push(localhost_line()));
        lemma_has_push(st.0, localhost_line());
        lemma_unique_push(st.0, localhost_line(), h);
    } else {
        assert(m1 =~= st.0);
    }
    if !st.2 {
        assert(m =~= m1.push(host_line(h)));
        lemma_has_push(m1, host_line(h));
        lemma_unique_push(m1, host_line(h), h);
    } else {
        assert(m =~= m1);
    }
    assert forall|i: int|
        0 <= i < m.len() implies #[trigger] m[i] == host_line(h) || m[i] == localhost_line()
        || exists|j: int| 0 <= j < l.len() && l[j] == m[i] && !is_host_slot(l[j]) by {
        if i < st.0.len() {
            assert(m[i] == st.0[i]);
        }
    }
    assert(m.subrange(0, st.0.len() as int) =~= st.0);
    assert forall|k: int| 0 <= k < m.len() implies no_newline(#[trigger] m[k]) by {
        if k < st.0.len() {
            assert(m[k] == st.0[k]);
        }
    }
    lemma_other_lines_add(st.0 + a, b);
    lemma_other_lines_add(st.0, a);
    if !st.1 {
        assert(a.drop_last() =~= Seq::<Seq<char>>::empty());
        assert(a.last() == localhost_line());
        assert(other_lines(Seq::<Seq<char>>::empty()) =~= Seq::<Seq<char>>::empty());
        assert(other_lines(a.drop_last()) =~= Seq::<Seq<char>>::empty());
        assert(other_lines(a) == other_lines(a.drop_last()).push(a.last()));
        assert(other_lines(a) =~= seq![localhost_line()]);
    } else {
        assert(other_lines(a) =~= Seq::<Seq<char>>::empty());
    }
    if !st.2 {
        assert(b.drop_last() =~= Seq::<Seq<char>>::empty());
        assert(other_lines(b) =~= Seq::<Seq<char>>::empty());
    } else {
        assert(other_lines(b) =~= Seq::<Seq<char>>::empty());
    }
    assert(other_lines(m) =~= kept_lines(l) + other_lines(a));
    let t = concat_lines(m);
    lemma_lines_of_concat(m);
    if !has_infix(t, "::1"@) {
        lemma_lines_with_ipv6(m);
    }
}

/// Rewriting the hosts file a second time with the same host name changes nothing, for a
/// host name without a newline.
pub proof fn lemma_hosts_idempotent(existing: Seq<char>, h: Seq<char>)
    requires
        no_newline(h),
    ensures
        hosts_text(hosts_text(existing, h), h) == hosts_text(existing, h),
{
    lemma_line_kinds(h);
    lemma_hosts_lines_facts(existing, h);
    let m = hosts_lines(existing, h);
    let t1 = hosts_text(existing, h);
    let t = concat_lines(m);
    if has_infix(t, "::1"@) {
        lemma_lines_of_concat(m);
        assert(lines_of(t1) == m);
        lemma_scan_stable(m, h);
        assert(hosts_lines(t1, h) =~= m);
    } else {
        let m2 = m + ipv6_lines();
        lemma_lines_with_ipv6(m);
        assert(lines_of(t1) == m2);
        lemma_extend_ipv6(m, h);
        lemma_scan_stable(m2, h);
        let i = choose|i: int| 0 <= i < m.len() && is_localhost_entry(#[trigger] m[i]);
        assert(m2[i] == m[i]);
        let j = choose|j: int| 0 <= j < m.len() && is_host_slot(#[trigger] m[j]);
        assert(m2[j] == m[j]);
        assert(hosts_lines(t1, h) =~= m2);
        lemma_concat_add(m, ipv6_lines());
        let c6 = concat_lines(ipv6_lines());
        reveal_strlit("::1");
        assert(t1 == t + c6);
        let w = choose|w: int| crate::text::occurs_at(c6, "::1"@, w);
        assert(0 <= w && w + 3 <= c6.len());
        assert(t1.subrange(t.len() + w, t.len() + w + 3) =~= c6.subrange(w, w + 3));
        assert(crate::text::occurs_at(t1, "::1"@, t.len() + w));
    }
}

/// Appending the IPv6 defaults adds no host-name line and no localhost entry.
proof fn lemma_extend_ipv6(m: Seq<Seq<char>>, h: Seq<char>)
    requires
        unique_slot(m, h),
        unique_entry(m),
    ensures
        unique_slot(m + ipv6_lines(), h),
        unique_entry(m + ipv6_lines()),
{
    lemma_line_kinds(h);
    let m2 = m + ipv6_lines();
    assert forall|i: int|
        0 <= i < m2.len() && (is_host_slot(#[trigger] m2[i]) || is_localhost_entry(
            m2[i],
        )) implies i < m.len() && m2[i] == m[i] by {
        if i >= m.len() {
            assert(m2[i] == ipv6_lines()[i - m.len()]);
        }
    }
}

/// After the rewrite the hosts file holds exactly one `127.0.1.1` line, `127.0.1.1<TAB>h`, and
/// exactly one `127.0.0.1 localhost` entry. The kept existing lines come first among the
/// lines that are not `127.0.1.1` lines, unchanged and in order; every line is a kept one, the
/// host-name line, the localhost entry or an IPv6 default. When the file had a `127.0.1.1`
/// line, the new one stands where the first of them stood.
pub proof fn lemma_hosts_replaces_stale_entry(existing: Seq<char>, h: Seq<char>)
    requires
        no_newline(h),
    ensures
        ({
            let out = lines_of(hosts_text(existing, h));
            let l = lines_of(existing);
            &&& exists|i: int| 0 <= i < out.len() && out[i] == host_line(h)
            &&& unique_slot(out, h)
            &&& has_entry(out)
            &&& unique_entry(out)
            &&& kept_lines(l).len() <= other_lines(out).len()
            &&& other_lines(out).subrange(0, kept_lines(l).len() as int) == kept_lines(l)
            &&& forall|i: int|
                0 <= i < out.len() ==> #[trigger] out[i] == host_line(h) || out[i]
                    == localhost_line() || (exists|k: int| 0 <= k < 3 && out[i] == ipv6_lines()[k])
                    || exists|j: int| 0 <= j < l.len() && l[j] == out[i] && !is_host_slot(l[j])
            &&& forall|j: int|
                0 <= j < l.len() && is_host_slot(#[trigger] l[j]) && (forall|k: int|
                    0 <= k < j ==> !is_host_slot(l[k])) ==> ({
                    let p = kept_lines(l.subrange(0, j));
                    p.len() < out.len() && out.subrange(0, p.len() as int) == p && out[p.len() as int]
                        == host_line(h)
                })
        }),
{
    lemma_line_kinds(h);
    lemma_hosts_lines_facts(existing, h);
    let m = hosts_lines(existing, h);
    let out = lines_of(hosts_text(existing, h));
    let l = lines_of(existing);
    let st = scan(l, h);
    let jj = choose|j: int| 0 <= j < m.len() && is_host_slot(#[trigger] m[j]);
    let ie = choose|i: int| 0 <= i < m.len() && is_localhost_entry(#[trigger] m[i]);
    assert(m.len() <= out.len() && out.subrange(0, m.len() as int) == m) by {
        if out != m {
            assert(out == m + ipv6_lines());
            assert(out.subrange(0, m.len() as int) =~= m);
        } else {
            assert(out.subrange(0, m.len() as int) =~= m);
        }
    }
    assert(out[jj] == m[jj]);
    assert(out[ie] == m[ie]);
    if out == m {
        assert(other_lines(out).subrange(0, kept_lines(l).len() as int) =~= kept_lines(l));
    } else {
        lemma_extend_ipv6(m, h);
        lemma_other_lines_add(m, ipv6_lines());
        assert(other_lines(out).subrange(0, kept_lines(l).len() as int) =~= kept_lines(l));
    }
    assert forall|i: int|
        0 <= i < out.len() implies #[trigger] out[i] == host_line(h) || out[i] == localhost_line()
        || (exists|k: int| 0 <= k < 3 && out[i] == ipv6_lines()[k]) || exists|j: int|
        0 <= j < l.len() && l[j] == out[i] && !is_host_slot(l[j]) by {
        if i < m.len() {
            assert(out[i] == m[i]);
        } else {
            assert(out[i] == ipv6_lines()[i - m.len()]);
        }
    }
    assert forall|j: int|
        0 <= j < l.len() && is_host_slot(#[trigger] l[j]) && (forall|k: int|
            0 <= k < j ==> !is_host_slot(l[k])) implies ({
        let p = kept_lines(l.subrange(0, j));
        p.len() < out.len() && out.subrange(0, p.len() as int) == p && out[p.len() as int]
            == host_line(h)
    }) by {
        let pre = l.subrange(0, j);
        let pre1 = l.subrange(0, j + 1);
        assert(pre1.drop_last() =~= pre);
        assert(pre1.last() == l[j]);
        lemma_scan_facts(pre, h);
        assert(!has_slot(pre)) by {
            if has_slot(pre) {
                let k = choose|k: int| 0 <= k < pre.len() && is_host_slot(#[trigger] pre[k]);
                assert(pre[k] == l[k]);
            }
        }
        let sp = scan(pre, h);
        lemma_other_lines_plain(sp.0);
        let p = kept_lines(pre);
        assert(sp.0 == p);
        assert(scan(pre1, h).0 == p.push(host_line(h)));
        lemma_scan_prefix(l, j + 1, h);
        let q = p.push(host_line(h));
        assert(st.0.subrange(0, q.len() as int) == q);
        assert(st.0[p.len() as int] == st.0.subrange(0, q.len() as int)[p.len() as int]);
        assert(m.subrange(0, st.0.len() as int) == st.0);
        assert(m[p.len() as int] == st.0[p.len() as int]);
        assert(out[p.len() as int] == m[p.len() as int]);
        assert(out.subrange(0, p.len() as int) =~= p) by {
            assert forall|k: int| 0 <= k < p.len() implies out[k] == p[k] by {
                assert(out[k] == m[k]);
                assert(m[k] == st.0[k]);
                assert(st.0[k] == st.0.subrange(0, q.len() as int)[k]);
            }
        }
    }
}

} // verus!
