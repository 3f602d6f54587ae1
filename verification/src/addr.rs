//! Discovery of the IBus daemon's private bus address: the text-level part.
//!
//! IBus does not use the session bus. Its address comes from `$IBUS_ADDRESS`,
//! or else from an address file (`$IBUS_ADDRESS_FILE`, or
//! `$XDG_CONFIG_HOME/ibus/bus/<machine-id>-<host>-<display>`), whose
//! `IBUS_ADDRESS=` line holds it. Reading the environment and the file is left
//! to the caller; this module decides what those values mean.

use vstd::prelude::*;
use vstd::string::*;

use crate::text::{
    all_whitespace, is_whitespace, lemma_trimmed_padding, find_char, has_prefix, lemma_position_at, lemma_position_found, position_from, strip_prefix,
    trim, trimmed,
};

verus! {

/// The address a line of the address file gives: the trimmed value after
/// `IBUS_ADDRESS=` in a trimmed line that is not a `#` comment, when non-empty.
pub open spec fn line_address(line: Seq<char>) -> Option<Seq<char>> {
    let t = trimmed(line);
    if t.len() > 0 && t[0] == '#' {
        None
    } else if has_prefix(t, "IBUS_ADDRESS="@) {
        let v = trimmed(t.skip("IBUS_ADDRESS="@.len() as int));
        if v.len() > 0 {
            Some(v)
        } else {
            None
        }
    } else {
        None
    }
}

/// The lines of `s`: the pieces between `\n` characters, in order (the last
/// piece is empty when `s` ends with `\n`).
pub open spec fn lines_of(s: Seq<char>) -> Seq<Seq<char>>
    decreases s.len(),
{
    if s.len() == 0 {
        seq![Seq::empty()]
    } else {
        let init = lines_of(s.drop_last());
        if s.last() == '\n' {
            init.push(Seq::empty())
        } else {
            init.update(init.len() - 1, init.last().push(s.last()))
        }
    }
}

/// The address of the first of the lines that gives one.
pub open spec fn first_line_address(lines: Seq<Seq<char>>) -> Option<Seq<char>>
    decreases lines.len(),
{
    if lines.len() == 0 {
        None
    } else {
        match line_address(lines[0]) {
            Some(v) => Some(v),
            None => first_line_address(lines.drop_first()),
        }
    }
}

/// The address that an address file's content gives: that of its first line
/// that gives one. Lines are trimmed before they are read, so a `\r` before
/// the `\n` and an empty last piece change nothing.
pub open spec fn file_address(content: Seq<char>) -> Option<Seq<char>> {
    first_line_address(lines_of(content))
}

proof fn lemma_lines_nonempty(s: Seq<char>)
    ensures
        lines_of(s).len() >= 1,
    decreases s.len(),
{
    if s.len() > 0 {
        lemma_lines_nonempty(s.drop_last());
    }
}

/// One more character extends the lines of a prefix.
proof fn lemma_lines_step(s: Seq<char>, j: int)
    requires
        0 <= j < s.len(),
    ensures
        lines_of(s.take(j + 1)) == (if s[j] == '\n' {
            lines_of(s.take(j)).push(Seq::empty())
        } else {
            let l = lines_of(s.take(j));
            l.update(l.len() - 1, l.last().push(s[j]))
        }),
{
    assert(s.take(j + 1).drop_last() =~= s.take(j));
}

/// All lines of a prefix but its last are the first lines of the whole.
proof fn lemma_lines_prefix(s: Seq<char>, j: int)
    requires
        0 <= j <= s.len(),
    ensures
        lines_of(s.take(j)).drop_last().is_prefix_of(lines_of(s)),
    decreases s.len() - j,
{
    lemma_lines_nonempty(s.take(j));
    if j == s.len() {
        assert(s.take(j) =~= s);
    } else {
        lemma_lines_prefix(s, j + 1);
        lemma_lines_step(s, j);
        lemma_lines_nonempty(s.take(j + 1));
        let l = lines_of(s.take(j));
        if s[j] == '\n' {
            assert(lines_of(s.take(j + 1)).drop_last() =~= l);
        } else {
            assert(lines_of(s.take(j + 1)).drop_last() =~= l.drop_last());
        }
    }
}

/// The first address of joined line lists.
proof fn lemma_first_line_address_append(a: Seq<Seq<char>>, b: Seq<Seq<char>>)
    ensures
        first_line_address(a + b) == (match first_line_address(a) {
            Some(v) => Some(v),
            None => first_line_address(b),
        }),
    decreases a.len(),
{
    if a.len() == 0 {
        assert(a + b =~= b);
    } else {
        assert((a + b).drop_first() =~= a.drop_first() + b);
        lemma_first_line_address_append(a.drop_first(), b);
    }
}

/// The first address of lines that begin with `p`, when `p` gives one.
proof fn lemma_first_line_address_prefix(p: Seq<Seq<char>>, l: Seq<Seq<char>>)
    requires
        p.is_prefix_of(l),
    ensures
        first_line_address(p) is Some ==> first_line_address(l) == first_line_address(p),
{
    assert(l =~= p + l.skip(p.len() as int));
    lemma_first_line_address_append(p, l.skip(p.len() as int));
}

/// The host and display number that an X11 `$DISPLAY` value
/// (`host:display.screen`) names; an empty host is `unix`.
pub open spec fn x_display_parts(disp: Seq<char>) -> (Seq<char>, Seq<char>) {
    let (host, rest) = match position_from(disp, ':', 0) {
        Some(k) => (disp.take(k), disp.skip(k + 1)),
        None => (Seq::empty(), disp),
    };
    let display = match position_from(rest, '.', 0) {
        Some(k) => rest.take(k),
        None => rest,
    };
    (if host.len() == 0 { "unix"@ } else { host }, display)
}

/// The (host, display) pair that names the address file: the Wayland display
/// under host `unix` when `$WAYLAND_DISPLAY` is set and non-empty, else the
/// parts of `$DISPLAY` (an unset `$DISPLAY` reads as empty).
pub open spec fn session_host_display(wayland: Option<Seq<char>>, x_display: Option<Seq<char>>) -> (
    Seq<char>,
    Seq<char>,
) {
    match wayland {
        Some(w) if w.len() > 0 => ("unix"@, w),
        _ => x_display_parts(
            match x_display {
                Some(d) => d,
                None => Seq::empty(),
            },
        ),
    }
}

/// Text without a newline is one line.
proof fn lemma_lines_single(a: Seq<char>)
    requires
        forall|i: int| 0 <= i < a.len() ==> a[i] != '\n',
    ensures
        lines_of(a) == seq![a],
    decreases a.len(),
{
    if a.len() > 0 {
        lemma_lines_single(a.drop_last());
        assert(a.drop_last().push(a.last()) =~= a);
    } else {
        assert(a =~= Seq::<char>::empty());
    }
}

/// A first line ended by a newline comes before the lines of the rest.
proof fn lemma_lines_concat(a: Seq<char>, b: Seq<char>)
    requires
        forall|i: int| 0 <= i < a.len() ==> a[i] != '\n',
    ensures
        lines_of(a + seq!['\n'] + b) == seq![a] + lines_of(b),
    decreases b.len(),
{
    let s = a + seq!['\n'] + b;
    if b.len() == 0 {
        assert(s.drop_last() =~= a);
        lemma_lines_single(a);
        assert(b =~= Seq::<char>::empty());
        assert(seq![a].push(Seq::<char>::empty()) =~= seq![a] + lines_of(b));
    } else {
        let b2 = b.drop_last();
        lemma_lines_concat(a, b2);
        lemma_lines_nonempty(b2);
        assert(s.drop_last() =~= a + seq!['\n'] + b2);
        assert(s.last() == b.last());
        let l = lines_of(b2);
        if b.last() == '\n' {
            assert((seq![a] + l).push(Seq::<char>::empty()) =~= seq![a] + l.push(Seq::<char>::empty()));
        } else {
            let j = seq![a] + l;
            assert(j.update(j.len() - 1, j.last().push(b.last())) =~= seq![a] + l.update(
                l.len() - 1,
                l.last().push(b.last()),
            ));
        }
    }
}

/// The first line of an address file decides when it gives an address;
/// otherwise the rest of the file does. Text without a newline is read as one
/// line.
pub proof fn lemma_file_address_lines(a: Seq<char>, b: Seq<char>)
    requires
        forall|i: int| 0 <= i < a.len() ==> a[i] != '\n',
    ensures
        file_address(a + seq!['\n'] + b) == (match line_address(a) {
            Some(v) => Some(v),
            None => file_address(b),
        }),
        file_address(a) == line_address(a),
{
    lemma_lines_concat(a, b);
    lemma_first_line_address_append(seq![a], lines_of(b));
    assert(seq![a][0] == a);
    assert(seq![a].drop_first() =~= Seq::<Seq<char>>::empty());
    assert(first_line_address(Seq::<Seq<char>>::empty()) is None);
    lemma_lines_single(a);
}

/// A line `IBUS_ADDRESS=<value>`, with any whitespace around it, gives the
/// value when the value is not empty and neither begins nor ends with
/// whitespace.
pub proof fn lemma_line_address_value(pre: Seq<char>, v: Seq<char>, post: Seq<char>)
    requires
        all_whitespace(pre),
        all_whitespace(post),
        v.len() > 0,
        !is_whitespace(v[0]),
        !is_whitespace(v.last()),
    ensures
        line_address(pre + ("IBUS_ADDRESS="@ + v) + post) == Some(v),
{
    reveal_strlit("IBUS_ADDRESS=");
    let key = "IBUS_ADDRESS="@;
    let body = key + v;
    assert(body[0] == 'I');
    assert(body.last() == v.last());
    lemma_trimmed_padding(pre, body, post);
    assert(body.subrange(0, key.len() as int) =~= key);
    assert(body.skip(key.len() as int) =~= v);
    lemma_trimmed_padding(Seq::empty(), v, Seq::empty());
    assert(Seq::<char>::empty() + v + Seq::<char>::empty() =~= v);
}

/// Without a non-empty Wayland display the X11 display decides (an unset one
/// reads as empty); a non-empty Wayland display names host `unix` and itself.
pub proof fn lemma_session_host_display(w: Seq<char>, d: Seq<char>)
    ensures
        session_host_display(None, Some(d)) == x_display_parts(d),
        session_host_display(Some(Seq::empty()), Some(d)) == x_display_parts(d),
        session_host_display(None, None) == x_display_parts(Seq::empty()),
        session_host_display(Some(Seq::empty()), None) == x_display_parts(Seq::empty()),
        w.len() > 0 ==> session_host_display(Some(w), Some(d)) == ("unix"@, w),
        w.len() > 0 ==> session_host_display(Some(w), None) == ("unix"@, w),
{
}

/// `host:display` and `host:display.screen` name the host (`unix` when empty)
/// and the display; a value without `:` and `.` is a display of host `unix`.
pub proof fn lemma_x_display_parts(h: Seq<char>, n: Seq<char>, s: Seq<char>)
    requires
        forall|i: int| 0 <= i < h.len() ==> h[i] != ':',
        forall|i: int| 0 <= i < n.len() ==> n[i] != '.',
    ensures
        x_display_parts(h + seq![':'] + n) == (if h.len() == 0 { "unix"@ } else { h }, n),
        x_display_parts(h + seq![':'] + n + seq!['.'] + s) == (
            if h.len() == 0 { "unix"@ } else { h },
            n,
        ),
        (forall|i: int| 0 <= i < n.len() ==> n[i] != ':') ==> x_display_parts(n) == ("unix"@, n),
{
    let a = h + seq![':'] + n;
    let b = h + seq![':'] + n + seq!['.'] + s;
    let p = h.len() as int;
    assert(a[p] == ':');
    assert forall|k: int| 0 <= k < p implies a[k] != ':' by {
        assert(a[k] == h[k]);
    }
    lemma_position_at(a, ':', 0, p);
    assert(a.take(p) =~= h);
    assert(a.skip(p + 1) =~= n);
    lemma_position_found(n, '.', 0);
    assert(b[p] == ':');
    assert forall|k: int| 0 <= k < p implies b[k] != ':' by {
        assert(b[k] == h[k]);
    }
    lemma_position_at(b, ':', 0, p);
    assert(b.take(p) =~= h);
    let r = b.skip(p + 1);
    assert(r =~= n + seq!['.'] + s);
    assert(r[n.len() as int] == '.');
    assert forall|k: int| 0 <= k < n.len() implies r[k] != '.' by {
        assert(r[k] == n[k]);
    }
    lemma_position_at(r, '.', 0, n.len() as int);
    assert(r.take(n.len() as int) =~= n);
    lemma_position_found(n, ':', 0);
}

/// The address of one line of the address file.
fn parse_address_line(line: &str) -> (r: Option<String>)
    ensures
        match r {
            Some(v) => line_address(line@) == Some(v@),
            None => line_address(line@) is None,
        },
{
    let t = trim(line);
    if t.unicode_len() > 0 && t.get_char(0) == '#' {
        return None;
    }
    match strip_prefix(t, "IBUS_ADDRESS=") {
        Some(rest) => {
            assert(rest@ =~= t@.skip("IBUS_ADDRESS="@.len() as int));
            let v = trim(rest);
            if v.unicode_len() > 0 {
                Some(String::from_str(v))
            } else {
                None
            }
        },
        None => None,
    }
}

/// Extracts the value of the `IBUS_ADDRESS=` line from an address file's
/// content; `#` comment lines are ignored.
pub fn parse_address_file(content: &str) -> (r: Option<String>)
    ensures
        match r {
            Some(v) => file_address(content@) == Some(v@),
            None => file_address(content@) is None,
        },
{
    let ghost c = content@;
    let n = content.unicode_len();
    let mut start: usize = 0;
    let mut i: usize = 0;
    let ghost mut done: Seq<Seq<char>> = Seq::empty();
    assert(c.take(0) =~= Seq::<char>::empty());
    assert(c.subrange(0, 0) =~= Seq::<char>::empty());
    assert(lines_of(c.take(0)) =~= done.push(c.subrange(0, 0)));
    while i < n
        invariant
            start <= i <= n,
            n == c.len(),
            c == content@,
            lines_of(c.take(i as int)) == done.push(c.subrange(start as int, i as int)),
            first_line_address(done) is None,
        decreases n - i,
    {
        proof {
            lemma_lines_step(c, i as int);
        }
        if content.get_char(i) == '\n' {
            let line = content.substring_char(start, i);
            let ghost cur = c.subrange(start as int, i as int);
            proof {
                lemma_first_line_address_append(done, seq![cur]);
                assert(seq![cur].drop_first() =~= Seq::<Seq<char>>::empty());
            }
            match parse_address_line(line) {
                Some(v) => {
                    proof {
                        lemma_lines_prefix(c, i + 1);
                        assert(lines_of(c.take(i + 1)).drop_last() =~= done.push(cur));
                        assert(done.push(cur) =~= done + seq![cur]);
                        lemma_first_line_address_prefix(done.push(cur), lines_of(c));
                    }
                    return Some(v);
                },
                None => {},
            }
            proof {
                assert(done.push(cur) =~= done + seq![cur]);
                assert(seq![cur][0] == cur);
                assert(first_line_address(Seq::<Seq<char>>::empty()) is None);
                assert(first_line_address(seq![cur]) is None);
                done = done.push(cur);
                assert(c.subrange(i + 1, i + 1) =~= Seq::<char>::empty());
            }
            start = i + 1;
        } else {
            proof {
                assert(c.subrange(start as int, i as int).push(c[i as int]) =~= c.subrange(
                    start as int,
                    i + 1,
                ));
                assert(lines_of(c.take(i + 1)) =~= done.push(c.subrange(start as int, i + 1)));
            }
        }
        i = i + 1;
    }
    let last = content.substring_char(start, n);
    proof {
        assert(c.take(n as int) =~= c);
        let cur = c.subrange(start as int, n as int);
        lemma_first_line_address_append(done, seq![cur]);
        assert(seq![cur].drop_first() =~= Seq::<Seq<char>>::empty());
        assert(done.push(cur) =~= done + seq![cur]);
    }
    parse_address_line(last)
}

/// Splits an X11 `$DISPLAY` value `host:display.screen` into the host (`unix`
/// when empty) and the display number, e.g. `:0` → (`unix`, `0`) and
/// `localhost:10.0` → (`localhost`, `10`).
pub fn parse_x_display(disp: &str) -> (r: (String, String))
    ensures
        (r.0@, r.1@) == x_display_parts(disp@),
{
    let n = disp.unicode_len();
    let (host, rest) = match find_char(disp, ':', 0) {
        Some(k) => {
            proof { crate::text::lemma_position_found(disp@, ':', 0); }
            let h = disp.substring_char(0, k);
            let r = disp.substring_char(k + 1, n);
            assert(h@ =~= disp@.take(k as int));
            assert(r@ =~= disp@.skip(k + 1));
            (h, r)
        },
        None => {
            let h = disp.substring_char(0, 0);
            assert(h@ =~= Seq::<char>::empty());
            (h, disp)
        },
    };
    let display = match find_char(rest, '.', 0) {
        Some(k) => {
            proof { crate::text::lemma_position_found(rest@, '.', 0); }
            let d = rest.substring_char(0, k);
            assert(d@ =~= rest@.take(k as int));
            d
        },
        None => rest,
    };
    let host_name = if host.unicode_len() == 0 {
        String::from_str("unix")
    } else {
        String::from_str(host)
    };
    (host_name, String::from_str(display))
}

/// Chooses the (host, display) pair that names the address file from the
/// values of `$WAYLAND_DISPLAY` and `$DISPLAY`.
pub fn select_host_and_display(wayland: Option<&str>, x_display: Option<&str>) -> (r: (
    String,
    String,
))
    ensures
        (r.0@, r.1@) == session_host_display(
            match wayland {
                Some(w) => Some(w@),
                None => None,
            },
            match x_display {
                Some(d) => Some(d@),
                None => None,
            },
        ),
{
    match wayland {
        Some(w) => {
            if w.unicode_len() > 0 {
                return (String::from_str("unix"), String::from_str(w));
            }
        },
        None => {},
    }
    match x_display {
        Some(d) => parse_x_display(d),
        None => {
            let e = "";
            let d = e.substring_char(0, 0);
            assert(d@ =~= Seq::<char>::empty());
            parse_x_display(d)
        },
    }
}

/// The address file name `<machine-id>-<host>-<display>`.
pub fn bus_file_name(machine_id: &str, host: &str, display: &str) -> (r: String)
    ensures
        r@ == machine_id@ + seq!['-'] + host@ + seq!['-'] + display@,
{
    let mut name = String::from_str(machine_id);
    let dash = "-";
    proof { reveal_strlit("-"); }
    name.append(dash);
    name.append(host);
    name.append(dash);
    name.append(display);
    name
}

/// The bus address that `$IBUS_ADDRESS` gives: its value when set and
/// non-empty.
pub fn env_address(value: Option<&str>) -> (r: Option<String>)
    ensures
        match r {
            Some(v) => value matches Some(s) && s@.len() > 0 && v@ == s@,
            None => value matches Some(s) ==> s@.len() == 0,
        },
{
    match value {
        Some(s) => if s.unicode_len() > 0 {
            Some(String::from_str(s))
        } else {
            None
        },
        None => None,
    }
}

} // verus!
