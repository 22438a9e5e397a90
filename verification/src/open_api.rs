//! Switching handler sources between documented endpoints and plain handlers.
//!
//! A source file keeps both attributes of a handler, one of them commented out:
//!
//! ```text
//! // #[endpoint]
//! #[handler]
//! async fn hello() {}
//! ```
//!
//! Releasing endpoints uncomments every `#[endpoint...]` attribute and comments the
//! line that follows it; releasing handlers does the reverse. An `#[endpoint(`
//! attribute whose line ends with `)]` stands on that line alone; otherwise it runs
//! until the line that ends with `)]`. The functions
//! here work on the lines of one file; reading and writing files is left to the caller.
use vstd::prelude::*;
use crate::text::{ends_with, has_prefix, has_suffix, prefixed, starts_with, strip_leading, trim_start_matches};

verus! {

/// The text of each line.
pub open spec fn text_of(v: Seq<String>) -> Seq<Seq<char>> {
    v.map_values(|s: String| s@)
}

/// A line with one comment marker put in front.
pub open spec fn commented(l: Seq<char>) -> Seq<char> {
    "// "@ + l
}

/// A line with all leading comment markers removed.
pub open spec fn uncommented(l: Seq<char>) -> Seq<char> {
    strip_leading(l, "// "@)
}

/// Keeps `None` and adds `b` to the flag of a result.
pub open spec fn or_flag(o: Option<(Seq<Seq<char>>, bool)>, b: bool) -> Option<(Seq<Seq<char>>, bool)> {
    match o {
        None => None,
        Some((l, r)) => Some((l, r || b)),
    }
}

/// The line is a commented endpoint attribute on one line: `// #[endpoint]`, or
/// `// #[endpoint(` with its arguments closed by `)]` on the same line.
pub open spec fn is_endpoint_marker(l: Seq<char>) -> bool {
    has_prefix(l, "// #[endpoint]"@) || (has_prefix(l, "// #[endpoint("@) && has_suffix(l, ")]"@))
}

/// The line is an endpoint attribute in use on one line: `#[endpoint]`, or
/// `#[endpoint(` with its arguments closed by `)]` on the same line.
pub open spec fn is_endpoint_attribute(l: Seq<char>) -> bool {
    has_prefix(l, "#[endpoint]"@) || (has_prefix(l, "#[endpoint("@) && has_suffix(l, ")]"@))
}

// ---------------------------------------------------------------------------
// Releasing endpoints
// ---------------------------------------------------------------------------

/// Uncomments the lines of a multi-line endpoint attribute from line `j` on, up to the
/// line that ends with `)]`, and comments the line after it. `None` when the
/// attribute or the line after it runs past the last of the `n` lines.
pub open spec fn endpoint_block(n: int, lines: Seq<Seq<char>>, j: int) -> Option<Seq<Seq<char>>>
    decreases n - j,
{
    if j < 0 || j >= n {
        None
    } else {
        let l2 = lines.update(j, uncommented(lines[j]));
        if has_suffix(l2[j], ")]"@) {
            if j + 1 < n {
                Some(l2.update(j + 1, commented(l2[j + 1])))
            } else {
                None
            }
        } else if j + 1 < n {
            endpoint_block(n, l2, j + 1)
        } else {
            None
        }
    }
}

/// What releasing endpoints does at line `i`, with whether it changed anything there.
pub open spec fn endpoint_step(n: int, lines: Seq<Seq<char>>, i: int) -> Option<(Seq<Seq<char>>, bool)> {
    let single = is_endpoint_marker(lines[i]);
    let first = if single {
        if i + 1 < n {
            Some(lines.update(i, uncommented(lines[i])).update(i + 1, commented(lines[i + 1])))
        } else {
            None
        }
    } else {
        Some(lines)
    };
    match first {
        None => None,
        Some(l1) => if has_prefix(l1[i], "// #[endpoint("@) {
            match endpoint_block(n, l1, i) {
                None => None,
                Some(l2) => Some((l2, true)),
            }
        } else {
            Some((l1, single))
        },
    }
}

/// Releasing endpoints from line `i` on.
pub open spec fn endpoint_pass(n: int, lines: Seq<Seq<char>>, i: int) -> Option<(Seq<Seq<char>>, bool)>
    decreases n - i,
{
    if i >= n {
        Some((lines, false))
    } else {
        match endpoint_step(n, lines, i) {
            None => None,
            Some((l1, r1)) => or_flag(endpoint_pass(n, l1, i + 1), r1),
        }
    }
}

/// The lines with endpoints released and whether any line changed; `None` when an
/// attribute has no line after it, or a multi-line attribute is never closed.
pub open spec fn released_endpoints(lines: Seq<Seq<char>>) -> Option<(Seq<Seq<char>>, bool)> {
    endpoint_pass(lines.len() as int, lines, 0)
}

// ---------------------------------------------------------------------------
// Releasing handlers
// ---------------------------------------------------------------------------

/// Comments the lines of a multi-line endpoint attribute from line `j` on, up to the
/// line that then ends with `// )]`, and uncomments the line after it.
pub open spec fn handler_block(n: int, lines: Seq<Seq<char>>, j: int) -> Option<Seq<Seq<char>>>
    decreases n - j,
{
    if j < 0 || j >= n {
        None
    } else {
        let l2 = lines.update(j, commented(lines[j]));
        if has_suffix(l2[j], "// )]"@) {
            if j + 1 < n {
                Some(l2.update(j + 1, uncommented(l2[j + 1])))
            } else {
                None
            }
        } else if j + 1 < n {
            handler_block(n, l2, j + 1)
        } else {
            None
        }
    }
}

/// What releasing handlers does at line `i`, with whether it changed anything there.
pub open spec fn handler_step(n: int, lines: Seq<Seq<char>>, i: int) -> Option<(Seq<Seq<char>>, bool)> {
    let single = is_endpoint_attribute(lines[i]);
    let first = if single {
        if i + 1 < n {
            Some(lines.update(i + 1, uncommented(lines[i + 1])).update(i, commented(lines[i])))
        } else {
            None
        }
    } else {
        Some(lines)
    };
    match first {
        None => None,
        Some(l1) => if has_prefix(l1[i], "#[endpoint("@) {
            match handler_block(n, l1, i) {
                None => None,
                Some(l2) => Some((l2, true)),
            }
        } else {
            Some((l1, single))
        },
    }
}

/// Releasing handlers from line `i` on.
pub open spec fn handler_pass(n: int, lines: Seq<Seq<char>>, i: int) -> Option<(Seq<Seq<char>>, bool)>
    decreases n - i,
{
    if i >= n {
        Some((lines, false))
    } else {
        match handler_step(n, lines, i) {
            None => None,
            Some((l1, r1)) => or_flag(handler_pass(n, l1, i + 1), r1),
        }
    }
}

/// The lines with handlers released and whether any line changed; `None` when an
/// attribute has no line after it, or a multi-line attribute is never closed.
pub open spec fn released_handlers(lines: Seq<Seq<char>>) -> Option<(Seq<Seq<char>>, bool)> {
    handler_pass(lines.len() as int, lines, 0)
}

// ---------------------------------------------------------------------------
// Executable passes
// ---------------------------------------------------------------------------

/// Replaces line `k` of `lines` by `s`.
fn set_line(lines: &mut Vec<String>, k: usize, s: String)
    requires
        k < old(lines).len(),
    ensures
        final(lines).len() == old(lines).len(),
        text_of(final(lines)@) == text_of(old(lines)@).update(k as int, s@),
{
    lines.set(k, s);
    assert(text_of(lines@) =~= text_of(old(lines)@).update(k as int, s@));
}

/// Uncomments line `k`.
fn uncomment_line(lines: &mut Vec<String>, k: usize)
    requires
        k < old(lines).len(),
    ensures
        final(lines).len() == old(lines).len(),
        text_of(final(lines)@) == text_of(old(lines)@).update(k as int, uncommented(old(lines)@[k as int]@)),
{
    let t = trim_start_matches(lines[k].as_str(), "// ");
    set_line(lines, k, t);
}

/// Comments line `k`.
fn comment_line(lines: &mut Vec<String>, k: usize)
    requires
        k < old(lines).len(),
    ensures
        final(lines).len() == old(lines).len(),
        text_of(final(lines)@) == text_of(old(lines)@).update(k as int, commented(old(lines)@[k as int]@)),
{
    let t = prefixed("// ", lines[k].as_str());
    set_line(lines, k, t);
}

/// Releases the endpoints of one file's lines; see [`released_endpoints`].
pub fn release_endpoint_lines(source: Vec<String>) -> (res: Option<(Vec<String>, bool)>)
    ensures
        res matches Some((v, r)) ==> released_endpoints(text_of(source@)) == Some((text_of(v@), r)),
        res is None ==> released_endpoints(text_of(source@)) is None,
{
    let ghost g0 = text_of(source@);
    let mut lines = source;
    let n = lines.len();
    let mut replaced = false;
    let mut i: usize = 0;
    while i < n
        invariant
            lines.len() == n,
            i <= n,
            g0.len() == n,
            g0 == text_of(source@),
            endpoint_pass(n as int, g0, 0) == or_flag(endpoint_pass(n as int, text_of(lines@), i as int), replaced),
        decreases n - i,
    {
        let ghost cur = text_of(lines@);
        let ghost old_replaced = replaced;
        assert(cur[i as int] == lines@[i as int]@);
        let single = starts_with(lines[i].as_str(), "// #[endpoint]")
            || (starts_with(lines[i].as_str(), "// #[endpoint(") && ends_with(lines[i].as_str(), ")]"));
        if single {
            if i + 1 >= n {
                assert(endpoint_step(n as int, cur, i as int) is None);
                assert(endpoint_pass(n as int, cur, i as int) is None);
                return None;
            }
            assert(cur[i + 1] == lines@[i + 1]@);
            uncomment_line(&mut lines, i);
            let ghost mid = text_of(lines@);
            assert(mid[i + 1] == lines@[i + 1]@);
            assert(mid[i + 1] == cur[i + 1]);
            comment_line(&mut lines, i + 1);
            replaced = true;
        }
        let ghost l1 = text_of(lines@);
        assert(single ==> l1 == cur.update(i as int, uncommented(cur[i as int])).update(i + 1, commented(cur[i + 1])));
        assert(!single ==> l1 == cur);
        assert(l1[i as int] == lines@[i as int]@);
        if starts_with(lines[i].as_str(), "// #[endpoint(") {
            let mut j = i;
            loop
                invariant_except_break
                    endpoint_block(n as int, l1, i as int) == endpoint_block(n as int, text_of(lines@), j as int),
                invariant
                    lines.len() == n,
                    i <= j < n,
                    g0.len() == n,
                    g0 == text_of(source@),
                    endpoint_pass(n as int, g0, 0) == or_flag(endpoint_pass(n as int, cur, i as int), old_replaced),
                    endpoint_step(n as int, cur, i as int) == match endpoint_block(n as int, l1, i as int) {
                        None => None,
                        Some(l2) => Some((l2, true)),
                    },
                ensures
                    lines.len() == n,
                    endpoint_block(n as int, l1, i as int) == Some(text_of(lines@)),
                decreases n - j,
            {
                let ghost prior = text_of(lines@);
                assert(prior[j as int] == lines@[j as int]@);
                uncomment_line(&mut lines, j);
                assert(text_of(lines@)[j as int] == lines@[j as int]@);
                if ends_with(lines[j].as_str(), ")]") {
                    if j + 1 >= n {
                        assert(endpoint_block(n as int, prior, j as int) is None);
                        assert(endpoint_pass(n as int, cur, i as int) is None);
                        return None;
                    }
                    assert(text_of(lines@)[j + 1] == lines@[j + 1]@);
                    comment_line(&mut lines, j + 1);
                    assert(endpoint_block(n as int, prior, j as int) == Some(text_of(lines@)));
                    break;
                }
                j = j + 1;
                if n <= j {
                    assert(endpoint_block(n as int, prior, (j - 1) as int) is None);
                    assert(endpoint_pass(n as int, cur, i as int) is None);
                    return None;
                }
            }
            replaced = true;
        }
        i = i + 1;
    }
    Some((lines, replaced))
}

/// Releases the endpoints of one file's lines; see [`released_handlers`].
pub fn release_handler_lines(source: Vec<String>) -> (res: Option<(Vec<String>, bool)>)
    ensures
        res matches Some((v, r)) ==> released_handlers(text_of(source@)) == Some((text_of(v@), r)),
        res is None ==> released_handlers(text_of(source@)) is None,
{
    let ghost g0 = text_of(source@);
    let mut lines = source;
    let n = lines.len();
    let mut replaced = false;
    let mut i: usize = 0;
    while i < n
        invariant
            lines.len() == n,
            i <= n,
            g0.len() == n,
            g0 == text_of(source@),
            handler_pass(n as int, g0, 0) == or_flag(handler_pass(n as int, text_of(lines@), i as int), replaced),
        decreases n - i,
    {
        let ghost cur = text_of(lines@);
        let ghost old_replaced = replaced;
        assert(cur[i as int] == lines@[i as int]@);
        let single = starts_with(lines[i].as_str(), "#[endpoint]")
            || (starts_with(lines[i].as_str(), "#[endpoint(") && ends_with(lines[i].as_str(), ")]"));
        if single {
            if i + 1 >= n {
                assert(handler_step(n as int, cur, i as int) is None);
                assert(handler_pass(n as int, cur, i as int) is None);
                return None;
            }
            assert(cur[i + 1] == lines@[i + 1]@);
            uncomment_line(&mut lines, i + 1);
            let ghost mid = text_of(lines@);
            assert(mid[i as int] == lines@[i as int]@);
            assert(mid[i as int] == cur[i as int]);
            comment_line(&mut lines, i);
            replaced = true;
        }
        let ghost l1 = text_of(lines@);
        assert(single ==> l1 == cur.update(i + 1, uncommented(cur[i + 1])).update(i as int, commented(cur[i as int])));
        assert(!single ==> l1 == cur);
        assert(l1[i as int] == lines@[i as int]@);
        if starts_with(lines[i].as_str(), "#[endpoint(") {
            let mut j = i;
            loop
                invariant_except_break
                    handler_block(n as int, l1, i as int) == handler_block(n as int, text_of(lines@), j as int),
                invariant
                    lines.len() == n,
                    i <= j < n,
                    g0.len() == n,
                    g0 == text_of(source@),
                    handler_pass(n as int, g0, 0) == or_flag(handler_pass(n as int, cur, i as int), old_replaced),
                    handler_step(n as int, cur, i as int) == match handler_block(n as int, l1, i as int) {
                        None => None,
                        Some(l2) => Some((l2, true)),
                    },
                ensures
                    lines.len() == n,
                    handler_block(n as int, l1, i as int) == Some(text_of(lines@)),
                decreases n - j,
            {
                let ghost prior = text_of(lines@);
                assert(prior[j as int] == lines@[j as int]@);
                comment_line(&mut lines, j);
                assert(text_of(lines@)[j as int] == lines@[j as int]@);
                if ends_with(lines[j].as_str(), "// )]") {
                    if j + 1 >= n {
                        assert(handler_block(n as int, prior, j as int) is None);
                        assert(handler_pass(n as int, cur, i as int) is None);
                        return None;
                    }
                    assert(text_of(lines@)[j + 1] == lines@[j + 1]@);
                    uncomment_line(&mut lines, j + 1);
                    assert(handler_block(n as int, prior, j as int) == Some(text_of(lines@)));
                    break;
                }
                j = j + 1;
                if n <= j {
                    assert(handler_block(n as int, prior, (j - 1) as int) is None);
                    assert(handler_pass(n as int, cur, i as int) is None);
                    return None;
                }
            }
            replaced = true;
        }
        i = i + 1;
    }
    Some((lines, replaced))
}


/// Whether a path names a Rust source file: one that ends with `.rs`.
pub fn is_rust_source(path: &str) -> (res: bool)
    ensures
        res == has_suffix(path@, ".rs"@),
{
    ends_with(path, ".rs")
}

// ---------------------------------------------------------------------------
// Laws (the round trip of both passes is in `release_laws`)
// ---------------------------------------------------------------------------

pub(crate) proof fn lemma_literals()
    ensures
        "// "@ == seq!['/', '/', ' '],
        "// #[endpoint]"@ == "// "@ + "#[endpoint]"@,
        "// #[endpoint("@ == "// "@ + "#[endpoint("@,
        "#[endpoint]"@.len() > 0,
        "#[endpoint]"@[0] == '#',
        "#[endpoint("@.len() > 0,
        "#[endpoint("@[0] == '#',
        "#[endpoint]"@.len() == 11,
        "#[endpoint("@.len() == 11,
        "#[endpoint]"@[10] == ']',
        "#[endpoint("@[10] == '(',
        ")]"@.len() == 2,
{
    reveal_strlit("// ");
    reveal_strlit("// #[endpoint]");
    reveal_strlit("// #[endpoint(");
    reveal_strlit("#[endpoint]");
    reveal_strlit("#[endpoint(");
    reveal_strlit(")]");
    assert("// #[endpoint]"@ =~= "// "@ + "#[endpoint]"@);
    assert("// #[endpoint("@ =~= "// "@ + "#[endpoint("@);
}

pub(crate) proof fn lemma_prefix_concat(p: Seq<char>, x: Seq<char>, q: Seq<char>)
    ensures
        has_prefix(p + x, p + q) == has_prefix(x, q),
{
    if has_prefix(x, q) {
        assert((p + x).subrange(0, (p + q).len() as int) =~= p + q);
    }
    if has_prefix(p + x, p + q) {
        assert(x.subrange(0, q.len() as int) =~= (p + x).subrange(0, (p + q).len() as int).subrange(
            p.len() as int,
            (p + q).len() as int,
        ));
        assert((p + q).subrange(p.len() as int, (p + q).len() as int) =~= q);
    }
}

pub(crate) proof fn lemma_prefix_shorter(s: Seq<char>, p: Seq<char>, q: Seq<char>)
    requires
        has_prefix(s, p + q),
    ensures
        has_prefix(s, p),
{
    assert(s.subrange(0, p.len() as int) =~= s.subrange(0, (p + q).len() as int).subrange(0, p.len() as int));
    assert((p + q).subrange(0, p.len() as int) =~= p);
}

pub(crate) proof fn lemma_differ_at(s: Seq<char>, a: Seq<char>, b: Seq<char>, t: int)
    requires
        0 <= t < a.len(),
        t < b.len(),
        a[t] != b[t],
        has_prefix(s, a),
    ensures
        !has_prefix(s, b),
{
    assert(s[t] == s.subrange(0, a.len() as int)[t]);
    if has_prefix(s, b) {
        assert(s[t] == s.subrange(0, b.len() as int)[t]);
    }
}

/// Uncommenting a commented line that held no marker gives the line back.
pub(crate) proof fn lemma_uncomment_commented(x: Seq<char>)
    requires
        !has_prefix(x, "// "@),
    ensures
        uncommented(commented(x)) == x,
{
    lemma_literals();
    let c = commented(x);
    assert(has_prefix(c, "// "@)) by {
        assert(c.subrange(0, 3) =~= "// "@);
    }
    assert(c.subrange(3, c.len() as int) =~= x);
    assert(strip_leading(x, "// "@) == x);
    assert(strip_leading(c, "// "@) == strip_leading(c.subrange(3, c.len() as int), "// "@));
}

/// A commented attribute line loses exactly one marker, and what remains is the
/// attribute in use.
pub(crate) proof fn lemma_uncomment_marker(l: Seq<char>)
    requires
        is_endpoint_marker(l),
    ensures
        uncommented(l) == l.subrange(3, l.len() as int),
        is_endpoint_attribute(l.subrange(3, l.len() as int)),
        !has_prefix(l.subrange(3, l.len() as int), "// "@),
        l == commented(l.subrange(3, l.len() as int)),
{
    lemma_literals();
    let rest = l.subrange(3, l.len() as int);
    let x = if has_prefix(l, "// #[endpoint]"@) { "#[endpoint]"@ } else { "#[endpoint("@ };
    assert(has_prefix(l, "// "@ + x));
    assert(l =~= "// "@ + rest) by {
        let head = "// "@ + x;
        assert(l.subrange(0, 3) =~= l.subrange(0, head.len() as int).subrange(0, 3));
        assert(head.subrange(0, 3) =~= "// "@);
        assert(l =~= l.subrange(0, 3) + rest);
    }
    lemma_prefix_concat("// "@, rest, "#[endpoint]"@);
    lemma_prefix_concat("// "@, rest, "#[endpoint("@);
    assert(has_prefix(rest, x));
    lemma_differ_at(rest, x, "// "@, 0);
    lemma_uncomment_commented(rest);
    if has_suffix(l, ")]"@) {
        assert(rest.subrange(rest.len() - 2, rest.len() as int) =~= l.subrange(l.len() - 2, l.len() as int));
    }
}

/// Sources without any commented endpoint attribute are left as they are, and no change
/// is reported.
pub proof fn lemma_endpoints_without_attributes(lines: Seq<Seq<char>>)
    requires
        forall|k: int|
            0 <= k < lines.len() ==> !has_prefix(#[trigger] lines[k], "// #[endpoint]"@)
                && !has_prefix(lines[k], "// #[endpoint("@),
    ensures
        released_endpoints(lines) == Some((lines, false)),
{
    lemma_endpoints_unchanged_from(lines, 0);
}

proof fn lemma_endpoints_unchanged_from(lines: Seq<Seq<char>>, i: int)
    requires
        0 <= i <= lines.len(),
        forall|k: int|
            0 <= k < lines.len() ==> !has_prefix(#[trigger] lines[k], "// #[endpoint]"@)
                && !has_prefix(lines[k], "// #[endpoint("@),
    ensures
        endpoint_pass(lines.len() as int, lines, i) == Some((lines, false)),
    decreases lines.len() - i,
{
    if i < lines.len() {
        lemma_endpoints_unchanged_from(lines, i + 1);
        assert(endpoint_step(lines.len() as int, lines, i) == Some((lines, false)));
    }
}

/// Sources without any uncommented endpoint attribute are left as they are, and no
/// change is reported.
pub proof fn lemma_handlers_without_attributes(lines: Seq<Seq<char>>)
    requires
        forall|k: int|
            0 <= k < lines.len() ==> !has_prefix(#[trigger] lines[k], "#[endpoint]"@)
                && !has_prefix(lines[k], "#[endpoint("@),
    ensures
        released_handlers(lines) == Some((lines, false)),
{
    lemma_handlers_unchanged_from(lines, 0);
}

proof fn lemma_handlers_unchanged_from(lines: Seq<Seq<char>>, i: int)
    requires
        0 <= i <= lines.len(),
        forall|k: int|
            0 <= k < lines.len() ==> !has_prefix(#[trigger] lines[k], "#[endpoint]"@)
                && !has_prefix(lines[k], "#[endpoint("@),
    ensures
        handler_pass(lines.len() as int, lines, i) == Some((lines, false)),
    decreases lines.len() - i,
{
    if i < lines.len() {
        lemma_handlers_unchanged_from(lines, i + 1);
        assert(handler_step(lines.len() as int, lines, i) == Some((lines, false)));
    }
}

} // verus!
