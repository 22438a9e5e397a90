//! Releasing endpoints and then handlers gives the sources back, with attributes on one
//! line or running over several.
use vstd::prelude::*;
use crate::open_api::{
    commented, endpoint_block, endpoint_pass, endpoint_step, handler_block, handler_pass, handler_step,
    is_endpoint_attribute, is_endpoint_marker, lemma_differ_at, lemma_literals, lemma_prefix_concat,
    lemma_prefix_shorter, lemma_uncomment_commented, lemma_uncomment_marker, released_endpoints,
    released_handlers, uncommented,
};
use crate::text::{has_prefix, has_suffix};

verus! {

/// The line opens a commented endpoint attribute whose arguments go on over later lines.
pub open spec fn opens_block(l: Seq<char>) -> bool {
    has_prefix(l, "// #[endpoint("@) && !has_suffix(l, ")]"@)
}

/// The line where the attribute that line `k` belongs to opens, or -1 when line `k` is
/// in no attribute that runs over several lines. Such an attribute runs from its opening
/// line to the first line that ends with `)]`.
pub open spec fn block_start(lines: Seq<Seq<char>>, k: int) -> int
    decreases k,
{
    if k < 0 || k >= lines.len() {
        -1
    } else if opens_block(lines[k]) {
        k
    } else if k == 0 || has_suffix(lines[k - 1], ")]"@) || is_endpoint_marker(lines[k - 1]) {
        -1
    } else {
        block_start(lines, k - 1)
    }
}

/// Line `k` belongs to an attribute that runs over several lines.
pub open spec fn in_block(lines: Seq<Seq<char>>, k: int) -> bool {
    block_start(lines, k) >= 0
}

/// Line `k` closes an attribute that runs over several lines.
pub open spec fn closes_block(lines: Seq<Seq<char>>, k: int) -> bool {
    in_block(lines, k) && has_suffix(lines[k], ")]"@)
}

/// Line `k` follows a commented endpoint attribute: the handler attribute it guards.
pub open spec fn follows_attribute(lines: Seq<Seq<char>>, k: int) -> bool {
    k > 0 && (is_endpoint_marker(lines[k - 1]) || closes_block(lines, k - 1))
}

/// A line with its one comment marker taken off.
pub open spec fn drop_marker(l: Seq<char>) -> Seq<char> {
    l.subrange(3, l.len() as int)
}

/// Line `k` of sources in handler form is as releasing endpoints needs it:
/// - no endpoint attribute is in use;
/// - a line of an attribute over several lines is commented once, goes on to a next
///   line that opens no attribute while it does not end with `)]`, and ends with `// )]`
///   when it does, then followed by an uncommented line;
/// - an attribute on one line is followed by an uncommented line.
pub open spec fn handler_line_ok(lines: Seq<Seq<char>>, k: int) -> bool {
    let l = lines[k];
    &&& !has_prefix(l, "#[endpoint]"@)
    &&& !has_prefix(l, "#[endpoint("@)
    &&& in_block(lines, k) ==> has_prefix(l, "// "@) && !has_prefix(drop_marker(l), "// "@)
    &&& in_block(lines, k) && !has_suffix(l, ")]"@) ==> {
        &&& k + 1 < lines.len()
        &&& !has_prefix(lines[k + 1], "// #[endpoint("@)
        &&& !has_prefix(lines[k + 1], "// #[endpoint]"@)
    }
    &&& closes_block(lines, k) ==> {
        &&& has_suffix(l, "// )]"@)
        &&& k + 1 < lines.len()
        &&& !has_prefix(lines[k + 1], "// "@)
    }
    &&& is_endpoint_marker(l) ==> k + 1 < lines.len() && !has_prefix(lines[k + 1], "// "@)
}

/// Sources in handler form whose every line is as releasing endpoints needs it.
pub open spec fn handler_sources(lines: Seq<Seq<char>>) -> bool {
    forall|k: int| 0 <= k < lines.len() ==> #[trigger] handler_line_ok(lines, k)
}

/// The sources with their endpoints released: each commented attribute line loses its
/// marker, and the line after each attribute is commented.
pub open spec fn endpoint_sources(lines: Seq<Seq<char>>) -> Seq<Seq<char>> {
    Seq::new(
        lines.len(),
        |k: int|
            if is_endpoint_marker(lines[k]) || in_block(lines, k) {
                drop_marker(lines[k])
            } else if follows_attribute(lines, k) {
                commented(lines[k])
            } else {
                lines[k]
            },
    )
}

/// Some line from `i` on opens a commented endpoint attribute.
pub open spec fn has_attribute_from(lines: Seq<Seq<char>>, i: int) -> bool {
    exists|k: int| i <= k < lines.len() && #[trigger] opens_attribute(lines[k])
}

/// The line opens a commented endpoint attribute, on one line or over several.
pub open spec fn opens_attribute(l: Seq<char>) -> bool {
    is_endpoint_marker(l) || opens_block(l)
}

/// The lines of an attribute over several lines all belong to it, and none before its
/// last ends with `)]` or is an attribute on one line.
proof fn lemma_block_walk(lines: Seq<Seq<char>>, k: int, t: int)
    requires
        in_block(lines, k),
        block_start(lines, k) <= t < k,
    ensures
        block_start(lines, t) == block_start(lines, k),
        !has_suffix(lines[t], ")]"@),
        !is_endpoint_marker(lines[t]),
    decreases k,
{
    if t < k - 1 {
        lemma_block_walk(lines, k - 1, t);
    }
}

/// A commented line ends with `)]` exactly when it does without its marker.
proof fn lemma_suffix_drop(l: Seq<char>)
    requires
        has_prefix(l, "// "@),
    ensures
        has_suffix(drop_marker(l), ")]"@) == has_suffix(l, ")]"@),
{
    lemma_literals();
    reveal_strlit(")]");
    let d = drop_marker(l);
    if d.len() >= 2 {
        assert(d.subrange(d.len() - 2, d.len() as int) =~= l.subrange(l.len() - 2, l.len() as int));
    } else if l.len() >= 2 {
        assert(l[l.len() - 2] == ' ' || l[l.len() - 2] == '/');
        if has_suffix(l, ")]"@) {
            assert(l.subrange(l.len() - 2, l.len() as int)[0] == l[l.len() - 2]);
        }
    }
}

/// The line that opens the attribute ending at line `m`.
pub open spec fn attribute_start(lines: Seq<Seq<char>>, m: int) -> int {
    if is_endpoint_marker(lines[m]) {
        m
    } else {
        block_start(lines, m)
    }
}

/// Line `k` was already released by the attribute that opens before line `i`.
pub open spec fn released_before(lines: Seq<Seq<char>>, i: int, k: int) -> bool {
    ||| in_block(lines, k) && block_start(lines, k) < i
    ||| follows_attribute(lines, k) && attribute_start(lines, k - 1) < i
}

/// Releasing endpoints from line `i` on, when the attributes that open before `i` are
/// released.
pub open spec fn endpoint_state(lines: Seq<Seq<char>>, i: int) -> Seq<Seq<char>> {
    Seq::new(
        lines.len(),
        |k: int| if k < i || released_before(lines, i, k) { endpoint_sources(lines)[k] } else { lines[k] },
    )
}

/// Releasing endpoints within the attribute that opens at `s`, up to line `j`.
pub open spec fn endpoint_block_state(lines: Seq<Seq<char>>, s: int, j: int) -> Seq<Seq<char>> {
    Seq::new(
        lines.len(),
        |k: int| if s <= k < j { endpoint_sources(lines)[k] } else { endpoint_state(lines, s)[k] },
    )
}

/// A line of an attribute over several lines is commented once.
proof fn lemma_block_line(lines: Seq<Seq<char>>, k: int)
    requires
        handler_sources(lines),
        0 <= k < lines.len(),
        in_block(lines, k),
    ensures
        has_prefix(lines[k], "// "@),
        lines[k] == commented(drop_marker(lines[k])),
        uncommented(lines[k]) == drop_marker(lines[k]),
        has_suffix(drop_marker(lines[k]), ")]"@) == has_suffix(lines[k], ")]"@),
        endpoint_sources(lines)[k] == drop_marker(lines[k]),
{
    assert(handler_line_ok(lines, k));
    lemma_literals();
    assert(lines[k] =~= "// "@ + drop_marker(lines[k])) by {
        assert(lines[k].subrange(0, 3) =~= "// "@);
        assert(lines[k] =~= lines[k].subrange(0, 3) + drop_marker(lines[k]));
    }
    lemma_uncomment_commented(drop_marker(lines[k]));
    lemma_suffix_drop(lines[k]);
}

/// A line that does not start with a comment marker opens no attribute.
proof fn lemma_plain_opens_nothing(l: Seq<char>)
    requires
        !has_prefix(l, "// "@),
    ensures
        !opens_block(l),
        !is_endpoint_marker(l),
        !has_prefix(l, "// #[endpoint("@),
        !has_prefix(l, "// #[endpoint]"@),
{
    lemma_literals();
    if has_prefix(l, "// #[endpoint("@) {
        lemma_prefix_shorter(l, "// "@, "#[endpoint("@);
    }
    if has_prefix(l, "// #[endpoint]"@) {
        lemma_prefix_shorter(l, "// "@, "#[endpoint]"@);
    }
}

/// Releasing endpoints over an attribute that opens at `s`, from its line `j` on,
/// releases the rest of it and comments the line after it.
proof fn lemma_endpoint_block(lines: Seq<Seq<char>>, s: int, j: int)
    requires
        handler_sources(lines),
        0 <= s <= j < lines.len(),
        opens_block(lines[s]),
        in_block(lines, j),
        block_start(lines, j) == s,
    ensures
        endpoint_block(lines.len() as int, endpoint_block_state(lines, s, j), j) == Some(endpoint_state(lines, s + 1)),
    decreases lines.len() - j,
{
    let n = lines.len() as int;
    let form = endpoint_sources(lines);
    let l = endpoint_block_state(lines, s, j);
    let target = endpoint_state(lines, s + 1);
    lemma_literals();
    lemma_block_line(lines, j);
    // Line `j` has not been touched yet.
    if j == s {
        if follows_attribute(lines, j) {
            assert(handler_line_ok(lines, j - 1));
        }
    } else {
        lemma_block_walk(lines, j, j - 1);
    }
    assert(!released_before(lines, s, j));
    assert(l[j] == lines[j]);
    let l2 = l.update(j, uncommented(l[j]));
    assert(l2 =~= endpoint_block_state(lines, s, j + 1));
    assert(handler_line_ok(lines, j));
    if has_suffix(lines[j], ")]"@) {
        assert(closes_block(lines, j));
        let m = lines[j + 1];
        lemma_plain_opens_nothing(m);
        assert(block_start(lines, j + 1) == -1);
        assert(!released_before(lines, s, j + 1));
        assert(l2[j + 1] == m);
        let res = l2.update(j + 1, commented(m));
        assert forall|k: int| 0 <= k < n implies #[trigger] res[k] == target[k] by {
            if k < s {
            } else if k <= j {
                if k < j {
                    lemma_block_walk(lines, j, k);
                }
                assert(released_before(lines, s + 1, k) || k < s + 1);
            } else if k == j + 1 {
                assert(j > s);
                lemma_block_walk(lines, j, j - 1);
                assert(handler_line_ok(lines, j - 1));
                assert(!is_endpoint_marker(lines[j]));
                assert(follows_attribute(lines, k));
                assert(released_before(lines, s + 1, k));
            } else {
                if in_block(lines, k) && block_start(lines, k) == s {
                    lemma_block_walk(lines, k, j);
                }
                if follows_attribute(lines, k) && attribute_start(lines, k - 1) == s {
                    if !is_endpoint_marker(lines[k - 1]) {
                        lemma_block_walk(lines, k - 1, j);
                    }
                }
                assert(released_before(lines, s + 1, k) == released_before(lines, s, k));
            }
        }
        assert(res =~= target);
    } else {
        assert(j + 1 < n);
        if j > s {
            assert(handler_line_ok(lines, j - 1));
            lemma_block_walk(lines, j, j - 1);
        } else {
            lemma_differ_at(lines[j], "// #[endpoint("@, "// #[endpoint]"@, 13);
        }
        assert(!is_endpoint_marker(lines[j]));
        assert(!opens_block(lines[j + 1]));
        assert(block_start(lines, j + 1) == s);
        lemma_endpoint_block(lines, s, j + 1);
    }
}

/// An attribute over several lines opens at or before each of its lines, on a line that
/// opens one.
proof fn lemma_block_start_opens(lines: Seq<Seq<char>>, k: int)
    requires
        in_block(lines, k),
    ensures
        0 <= block_start(lines, k) <= k,
        opens_block(lines[block_start(lines, k)]),
    decreases k,
{
    if !opens_block(lines[k]) {
        lemma_block_start_opens(lines, k - 1);
    }
}

/// Line `i`, opening no attribute over several lines, releases no later line but the
/// one after it when it is an attribute.
proof fn lemma_released_step(lines: Seq<Seq<char>>, i: int, k: int)
    requires
        0 <= i < k < lines.len(),
        !opens_block(lines[i]),
        is_endpoint_marker(lines[i]) ==> k > i + 1,
    ensures
        released_before(lines, i + 1, k) == released_before(lines, i, k),
{
    if in_block(lines, k) {
        lemma_block_start_opens(lines, k);
    }
    if follows_attribute(lines, k) && !is_endpoint_marker(lines[k - 1]) {
        lemma_block_start_opens(lines, k - 1);
    }
}

/// Releasing endpoints from line `i` on releases the rest of the sources.
proof fn lemma_endpoint_pass(lines: Seq<Seq<char>>, i: int)
    requires
        handler_sources(lines),
        0 <= i <= lines.len(),
    ensures
        endpoint_pass(lines.len() as int, endpoint_state(lines, i), i)
            == Some((endpoint_sources(lines), has_attribute_from(lines, i))),
    decreases lines.len() - i,
{
    let n = lines.len() as int;
    let st = endpoint_state(lines, i);
    let form = endpoint_sources(lines);
    lemma_literals();
    if i == n {
        assert(st =~= form);
        assert(!has_attribute_from(lines, i));
    } else {
        let l = lines[i];
        let next = endpoint_state(lines, i + 1);
        lemma_endpoint_pass(lines, i + 1);
        assert(handler_line_ok(lines, i));
        if i > 0 {
            assert(handler_line_ok(lines, i - 1));
        }
        if is_endpoint_marker(l) {
            if has_prefix(l, "// #[endpoint]"@) {
                lemma_prefix_shorter(l, "// "@, "#[endpoint]"@);
                lemma_differ_at(l, "// #[endpoint]"@, "// #[endpoint("@, 13);
            } else {
                lemma_prefix_shorter(l, "// "@, "#[endpoint("@);
            }
            if in_block(lines, i) {
                lemma_block_start_opens(lines, i);
                lemma_block_walk(lines, i, i - 1);
            }
            assert(!released_before(lines, i, i));
            let m = lines[i + 1];
            lemma_plain_opens_nothing(m);
            assert(!in_block(lines, i + 1));
            assert(!released_before(lines, i, i + 1));
            lemma_uncomment_marker(l);
            let rest = drop_marker(l);
            if has_prefix(rest, "// #[endpoint("@) {
                lemma_prefix_shorter(rest, "// "@, "#[endpoint("@);
            }
            let l1 = st.update(i, uncommented(st[i])).update(i + 1, commented(st[i + 1]));
            assert forall|k: int| 0 <= k < n implies #[trigger] l1[k] == next[k] by {
                if k > i + 1 {
                    lemma_released_step(lines, i, k);
                }
            }
            assert(l1 =~= next);
            assert(endpoint_step(n, st, i) == Some((next, true)));
            assert(opens_attribute(lines[i]));
            assert(has_attribute_from(lines, i));
        } else if opens_block(l) {
            assert(block_start(lines, i) == i);
            assert(!released_before(lines, i, i));
            assert(endpoint_block_state(lines, i, i) =~= st);
            lemma_endpoint_block(lines, i, i);
            assert(endpoint_step(n, st, i) == Some((next, true)));
            assert(opens_attribute(lines[i]));
            assert(has_attribute_from(lines, i));
        } else {
            if in_block(lines, i) {
                lemma_block_start_opens(lines, i);
                lemma_block_line(lines, i);
                assert(released_before(lines, i, i));
                let d = drop_marker(l);
                assert(!has_prefix(d, "// "@));
                lemma_plain_opens_nothing(d);
                assert(st[i] == d);
            } else if follows_attribute(lines, i) {
                if !is_endpoint_marker(lines[i - 1]) {
                    lemma_block_start_opens(lines, i - 1);
                }
                assert(released_before(lines, i, i));
                lemma_plain_opens_nothing(l);
                lemma_prefix_concat("// "@, l, "#[endpoint]"@);
                lemma_prefix_concat("// "@, l, "#[endpoint("@);
                assert(st[i] == commented(l));
            } else {
                assert(st[i] == l);
            }
            assert forall|k: int| 0 <= k < n implies #[trigger] st[k] == next[k] by {
                if k > i {
                    lemma_released_step(lines, i, k);
                }
            }
            assert(next =~= st);
            assert(endpoint_step(n, st, i) == Some((next, false)));
        }
        if has_attribute_from(lines, i) {
            let k = choose|k: int| i <= k < n && #[trigger] opens_attribute(lines[k]);
            if k != i {
                assert(has_attribute_from(lines, i + 1));
            }
        }
        if has_attribute_from(lines, i + 1) {
            let k = choose|k: int| i + 1 <= k < n && #[trigger] opens_attribute(lines[k]);
            assert(has_attribute_from(lines, i));
        }
    }
}

/// Releasing handlers from line `i` on, when the attributes that open before `i` are
/// back in handler form.
pub open spec fn handler_state(lines: Seq<Seq<char>>, i: int) -> Seq<Seq<char>> {
    Seq::new(
        lines.len(),
        |k: int| if k < i || released_before(lines, i, k) { lines[k] } else { endpoint_sources(lines)[k] },
    )
}

/// Releasing handlers within the attribute that opens at `s`, up to line `j`.
pub open spec fn handler_block_state(lines: Seq<Seq<char>>, s: int, j: int) -> Seq<Seq<char>> {
    Seq::new(lines.len(), |k: int| if s <= k < j { lines[k] } else { handler_state(lines, s)[k] })
}

proof fn lemma_closing_suffix(l: Seq<char>)
    requires
        has_suffix(l, "// )]"@),
    ensures
        has_suffix(l, ")]"@),
{
    reveal_strlit("// )]");
    reveal_strlit(")]");
    assert("// )]"@ =~= seq!['/', '/', ' ', ')', ']']);
    assert(")]"@ =~= seq![')', ']']);
    let tail = l.subrange(l.len() - 5, l.len() as int);
    assert(l.subrange(l.len() - 2, l.len() as int) =~= tail.subrange(3, 5));
    assert(tail.subrange(3, 5) =~= seq![')', ']']);
}

/// Releasing handlers over an attribute that opens at `s`, from its line `j` on,
/// comments the rest of it and uncomments the line after it.
proof fn lemma_handler_block(lines: Seq<Seq<char>>, s: int, j: int)
    requires
        handler_sources(lines),
        0 <= s <= j < lines.len(),
        opens_block(lines[s]),
        in_block(lines, j),
        block_start(lines, j) == s,
    ensures
        handler_block(lines.len() as int, handler_block_state(lines, s, j), j) == Some(handler_state(lines, s + 1)),
    decreases lines.len() - j,
{
    let n = lines.len() as int;
    let form = endpoint_sources(lines);
    let l = handler_block_state(lines, s, j);
    let target = handler_state(lines, s + 1);
    lemma_literals();
    lemma_block_line(lines, j);
    if j == s {
        if follows_attribute(lines, j) {
            assert(handler_line_ok(lines, j - 1));
        }
    } else {
        lemma_block_walk(lines, j, j - 1);
    }
    assert(!released_before(lines, s, j));
    assert(l[j] == form[j]);
    let l2 = l.update(j, commented(l[j]));
    assert(l2 =~= handler_block_state(lines, s, j + 1));
    assert(handler_line_ok(lines, j));
    if has_suffix(lines[j], ")]"@) {
        assert(closes_block(lines, j));
        assert(has_suffix(l2[j], "// )]"@));
        let m = lines[j + 1];
        lemma_plain_opens_nothing(m);
        assert(block_start(lines, j + 1) == -1);
        assert(!released_before(lines, s, j + 1));
        assert(j > s);
        lemma_block_walk(lines, j, j - 1);
        assert(handler_line_ok(lines, j - 1));
        assert(!is_endpoint_marker(lines[j]));
        assert(follows_attribute(lines, j + 1));
        assert(l2[j + 1] == commented(m));
        lemma_uncomment_commented(m);
        let res = l2.update(j + 1, uncommented(l2[j + 1]));
        assert forall|k: int| 0 <= k < n implies #[trigger] res[k] == target[k] by {
            if k < s {
            } else if k <= j {
                if k < j {
                    lemma_block_walk(lines, j, k);
                }
                assert(released_before(lines, s + 1, k) || k < s + 1);
            } else if k == j + 1 {
                assert(released_before(lines, s + 1, k));
            } else {
                if in_block(lines, k) && block_start(lines, k) == s {
                    lemma_block_walk(lines, k, j);
                }
                if follows_attribute(lines, k) && attribute_start(lines, k - 1) == s {
                    if !is_endpoint_marker(lines[k - 1]) {
                        lemma_block_walk(lines, k - 1, j);
                    }
                }
                assert(released_before(lines, s + 1, k) == released_before(lines, s, k));
            }
        }
        assert(res =~= target);
    } else {
        if has_suffix(l2[j], "// )]"@) {
            lemma_closing_suffix(l2[j]);
        }
        assert(j + 1 < n);
        if j > s {
            assert(handler_line_ok(lines, j - 1));
            lemma_block_walk(lines, j, j - 1);
        } else {
            lemma_differ_at(lines[j], "// #[endpoint("@, "// #[endpoint]"@, 13);
        }
        assert(!is_endpoint_marker(lines[j]));
        assert(!opens_block(lines[j + 1]));
        assert(block_start(lines, j + 1) == s);
        lemma_handler_block(lines, s, j + 1);
    }
}

/// Releasing handlers from line `i` on gives back the rest of the sources.
proof fn lemma_handler_pass(lines: Seq<Seq<char>>, i: int)
    requires
        handler_sources(lines),
        0 <= i <= lines.len(),
    ensures
        handler_pass(lines.len() as int, handler_state(lines, i), i) == Some((lines, has_attribute_from(lines, i))),
    decreases lines.len() - i,
{
    let n = lines.len() as int;
    let t = handler_state(lines, i);
    let form = endpoint_sources(lines);
    lemma_literals();
    if i == n {
        assert(t =~= lines);
        assert(!has_attribute_from(lines, i));
    } else {
        let l = lines[i];
        let next = handler_state(lines, i + 1);
        lemma_handler_pass(lines, i + 1);
        assert(handler_line_ok(lines, i));
        if i > 0 {
            assert(handler_line_ok(lines, i - 1));
        }
        if is_endpoint_marker(l) {
            if has_prefix(l, "// #[endpoint]"@) {
                lemma_prefix_shorter(l, "// "@, "#[endpoint]"@);
                lemma_differ_at(l, "// #[endpoint]"@, "// #[endpoint("@, 13);
            } else {
                lemma_prefix_shorter(l, "// "@, "#[endpoint("@);
            }
            if in_block(lines, i) {
                lemma_block_start_opens(lines, i);
                lemma_block_walk(lines, i, i - 1);
            }
            assert(!released_before(lines, i, i));
            let m = lines[i + 1];
            lemma_plain_opens_nothing(m);
            assert(!in_block(lines, i + 1));
            assert(!released_before(lines, i, i + 1));
            lemma_uncomment_marker(l);
            lemma_uncomment_commented(m);
            assert(t[i] == drop_marker(l));
            assert(t[i + 1] == commented(m));
            lemma_differ_at(l, "// "@, "#[endpoint("@, 0);
            let l1 = t.update(i + 1, uncommented(t[i + 1])).update(i, commented(t[i]));
            assert forall|k: int| 0 <= k < n implies #[trigger] l1[k] == next[k] by {
                if k > i + 1 {
                    lemma_released_step(lines, i, k);
                }
            }
            assert(l1 =~= next);
            assert(handler_step(n, t, i) == Some((next, true)));
            assert(opens_attribute(lines[i]));
            assert(has_attribute_from(lines, i));
        } else if opens_block(l) {
            assert(block_start(lines, i) == i);
            assert(!released_before(lines, i, i));
            lemma_block_line(lines, i);
            let d = drop_marker(l);
            assert(l =~= "// "@ + d);
            lemma_prefix_concat("// "@, d, "#[endpoint("@);
            lemma_differ_at(d, "#[endpoint("@, "#[endpoint]"@, 10);
            assert(!is_endpoint_attribute(d));
            assert(handler_block_state(lines, i, i) =~= t);
            lemma_handler_block(lines, i, i);
            assert(handler_step(n, t, i) == Some((next, true)));
            assert(opens_attribute(lines[i]));
            assert(has_attribute_from(lines, i));
        } else {
            if in_block(lines, i) {
                lemma_block_start_opens(lines, i);
                lemma_block_line(lines, i);
                assert(released_before(lines, i, i));
                lemma_differ_at(l, "// "@, "#[endpoint("@, 0);
                lemma_differ_at(l, "// "@, "#[endpoint]"@, 0);
                assert(t[i] == l);
            } else if follows_attribute(lines, i) {
                if !is_endpoint_marker(lines[i - 1]) {
                    lemma_block_start_opens(lines, i - 1);
                }
                assert(released_before(lines, i, i));
                assert(t[i] == l);
            } else {
                assert(t[i] == l);
            }
            assert forall|k: int| 0 <= k < n implies #[trigger] t[k] == next[k] by {
                if k > i {
                    lemma_released_step(lines, i, k);
                }
            }
            assert(next =~= t);
            assert(handler_step(n, t, i) == Some((next, false)));
        }
        if has_attribute_from(lines, i) {
            let k = choose|k: int| i <= k < n && #[trigger] opens_attribute(lines[k]);
            if k != i {
                assert(has_attribute_from(lines, i + 1));
            }
        }
        if has_attribute_from(lines, i + 1) {
            let k = choose|k: int| i + 1 <= k < n && #[trigger] opens_attribute(lines[k]);
            assert(has_attribute_from(lines, i));
        }
    }
}

/// Releasing endpoints and then releasing handlers gives back the sources, when every
/// endpoint attribute stands commented before an uncommented line, on one line or over
/// several lines that each carry one comment marker and end with a line `// )]`: the
/// first pass uncomments each attribute and comments the line after it, the second
/// undoes both, and each reports a change exactly when there is an attribute.
pub proof fn lemma_release_round_trip(lines: Seq<Seq<char>>)
    requires
        handler_sources(lines),
    ensures
        released_endpoints(lines) == Some((endpoint_sources(lines), has_attribute_from(lines, 0))),
        released_handlers(endpoint_sources(lines)) == Some((lines, has_attribute_from(lines, 0))),
{
    lemma_endpoint_pass(lines, 0);
    lemma_handler_pass(lines, 0);
    assert(endpoint_state(lines, 0) =~= lines);
    assert(handler_state(lines, 0) =~= endpoint_sources(lines));
}

} // verus!
