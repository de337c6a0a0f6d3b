//! Extraction of the client's install directory from its command line.
//!
//! The joined arguments carry a flag of the form
//! `--install-directory=<value>`, where the value is either quoted (and may
//! then contain spaces) or a bare run of non-whitespace characters. The
//! quote-aware form is tried first over the whole input, the bare-token form
//! second, and surrounding quote characters are stripped from the capture.

use vstd::prelude::*;

verus! {

/// The flag marker that introduces the install directory.
pub open spec fn marker() -> Seq<char> {
    "--install-directory="@
}

/// Unicode whitespace, as the quote-aware value pattern excludes it.
pub open spec fn is_ws(c: char) -> bool {
    ||| c == '\u{9}'
    ||| c == '\u{a}'
    ||| c == '\u{b}'
    ||| c == '\u{c}'
    ||| c == '\u{d}'
    ||| c == ' '
    ||| c == '\u{85}'
    ||| c == '\u{a0}'
    ||| c == '\u{1680}'
    ||| ('\u{2000}' <= c && c <= '\u{200a}')
    ||| c == '\u{2028}'
    ||| c == '\u{2029}'
    ||| c == '\u{202f}'
    ||| c == '\u{205f}'
    ||| c == '\u{3000}'
}

/// Decides `is_ws`.
pub fn is_ws_exec(c: char) -> (r: bool)
    ensures
        r == is_ws(c),
{
    c == '\u{9}' || c == '\u{a}' || c == '\u{b}' || c == '\u{c}' || c == '\u{d}' || c == ' '
        || c == '\u{85}' || c == '\u{a0}' || c == '\u{1680}'
        || ('\u{2000}' <= c && c <= '\u{200a}') || c == '\u{2028}' || c == '\u{2029}'
        || c == '\u{202f}' || c == '\u{205f}' || c == '\u{3000}'
}

/// First index at or after `i` holding a quote, or the length when none.
pub open spec fn next_quote(s: Seq<char>, i: int) -> int
    decreases s.len() - i,
{
    if i < 0 || i >= s.len() {
        s.len() as int
    } else if s[i] == '"' {
        i
    } else {
        next_quote(s, i + 1)
    }
}

proof fn lemma_next_quote_determined(s: Seq<char>, i: int, j: int)
    requires
        0 <= i <= j <= s.len(),
        forall|k: int| i <= k < j ==> s[k] != '"',
        j == s.len() || s[j] == '"',
    ensures
        next_quote(s, i) == j,
    decreases j - i,
{
    if i < j {
        lemma_next_quote_determined(s, i + 1, j);
    }
}

/// End of the maximal run of non-whitespace, non-quote characters starting
/// at `i` (the bare capture of the quote-aware pattern).
pub open spec fn bare_end(s: Seq<char>, i: int) -> int
    decreases s.len() - i,
{
    if i < 0 || i >= s.len() {
        if i < 0 {
            0
        } else {
            s.len() as int
        }
    } else if is_ws(s[i]) || s[i] == '"' {
        i
    } else {
        bare_end(s, i + 1)
    }
}

proof fn lemma_bare_end_determined(s: Seq<char>, i: int, j: int)
    requires
        0 <= i <= j <= s.len(),
        forall|k: int| i <= k < j ==> !is_ws(#[trigger] s[k]) && s[k] != '"',
        j == s.len() || is_ws(s[j]) || s[j] == '"',
    ensures
        bare_end(s, i) == j,
    decreases j - i,
{
    if i < j {
        lemma_bare_end_determined(s, i + 1, j);
    }
}

/// End of the maximal run of non-space characters starting at `i` (the
/// capture of the simple fallback pattern).
pub open spec fn simple_end(s: Seq<char>, i: int) -> int
    decreases s.len() - i,
{
    if i < 0 || i >= s.len() {
        if i < 0 {
            0
        } else {
            s.len() as int
        }
    } else if s[i] == ' ' {
        i
    } else {
        simple_end(s, i + 1)
    }
}

proof fn lemma_simple_end_determined(s: Seq<char>, i: int, j: int)
    requires
        0 <= i <= j <= s.len(),
        forall|k: int| i <= k < j ==> s[k] != ' ',
        j == s.len() || s[j] == ' ',
    ensures
        simple_end(s, i) == j,
    decreases j - i,
{
    if i < j {
        lemma_simple_end_determined(s, i + 1, j);
    }
}

/// Whether the flag marker occurs at position `p`.
pub open spec fn marker_at(s: Seq<char>, p: int) -> bool {
    0 <= p && p + marker().len() <= s.len() && s.subrange(p, p + marker().len() as int)
        == marker()
}

/// What the quote-aware pattern captures at a marker occurrence at `p`:
/// either a quoted value — a quote, one or more non-quote characters, and a
/// closing quote, captured with its quotes — or a bare run of
/// non-whitespace, non-quote characters; `None` when neither value form
/// follows the marker.
pub open spec fn capture_complex_at(s: Seq<char>, p: int) -> Option<Seq<char>> {
    let v = p + marker().len() as int;
    if v < s.len() && s[v] == '"' {
        let e = next_quote(s, v + 1);
        if e < s.len() && e > v + 1 {
            Some(s.subrange(v, e + 1))
        } else {
            Option::None
        }
    } else {
        let e = bare_end(s, v);
        if e > v {
            Some(s.subrange(v, e))
        } else {
            Option::None
        }
    }
}

/// What the simple fallback pattern captures at a marker occurrence at `p`:
/// a non-empty run of non-space characters.
pub open spec fn capture_simple_at(s: Seq<char>, p: int) -> Option<Seq<char>> {
    let v = p + marker().len() as int;
    let e = simple_end(s, v);
    if e > v {
        Some(s.subrange(v, e))
    } else {
        Option::None
    }
}

/// The leftmost quote-aware match at or after position `p`.
pub open spec fn complex_from(s: Seq<char>, p: int) -> Option<Seq<char>>
    decreases s.len() - p,
{
    if p < 0 || p >= s.len() || p + marker().len() > s.len() {
        Option::None
    } else if marker_at(s, p) && capture_complex_at(s, p) is Some {
        capture_complex_at(s, p)
    } else {
        complex_from(s, p + 1)
    }
}

/// The leftmost simple-pattern match at or after position `p`.
pub open spec fn simple_from(s: Seq<char>, p: int) -> Option<Seq<char>>
    decreases s.len() - p,
{
    if p < 0 || p >= s.len() || p + marker().len() > s.len() {
        Option::None
    } else if marker_at(s, p) && capture_simple_at(s, p) is Some {
        capture_simple_at(s, p)
    } else {
        simple_from(s, p + 1)
    }
}

/// The capture with every quote character removed.
pub open spec fn strip_quotes(s: Seq<char>) -> Seq<char> {
    s.filter(|c: char| c != '"')
}

/// The install directory the argument string yields: the quote-aware
/// pattern's leftmost capture when it has one, else the simple pattern's,
/// stripped of quote characters; `None` when neither pattern matches.
pub open spec fn extract_install_dir(s: Seq<char>) -> Option<Seq<char>> {
    match complex_from(s, 0) {
        Some(c) => Some(strip_quotes(c)),
        Option::None => match simple_from(s, 0) {
            Some(c) => Some(strip_quotes(c)),
            Option::None => Option::None,
        },
    }
}

/// Decides whether the flag marker occurs at `p`.
fn marker_at_exec(s: &str, p: usize) -> (r: bool)
    requires
        p + 20 <= s@.len(),
        marker().len() == 20,
    ensures
        r == marker_at(s@, p as int),
{
    let m = "--install-directory=";
    proof {
        reveal_strlit("--install-directory=");
    }
    let n = s.unicode_len();
    let mut i: usize = 0;
    while i < 20
        invariant
            p + 20 <= n == s@.len(),
            m@ == marker(),
            m@.len() == 20,
            0 <= i <= 20,
            forall|k: int| 0 <= k < i ==> s@[p + k] == m@[k],
        decreases 20 - i,
    {
        if s.get_char(p + i) != m.get_char(i) {
            assert(s@.subrange(p as int, p + 20) != marker()) by {
                assert(s@.subrange(p as int, p + 20)[i as int] != marker()[i as int]);
            }
            return false;
        }
        i += 1;
    }
    proof {
        assert(s@.subrange(p as int, p + 20) =~= marker());
    }
    true
}

fn find_next_quote(s: &str, i: usize) -> (r: usize)
    requires
        i <= s@.len(),
    ensures
        r == next_quote(s@, i as int),
        i <= r <= s@.len(),
{
    let n = s.unicode_len();
    let mut j: usize = i;
    while j < n
        invariant
            i <= j <= n == s@.len(),
            forall|k: int| i <= k < j ==> s@[k] != '"',
        decreases n - j,
    {
        if s.get_char(j) == '"' {
            proof {
                lemma_next_quote_determined(s@, i as int, j as int);
            }
            return j;
        }
        j += 1;
    }
    proof {
        lemma_next_quote_determined(s@, i as int, n as int);
    }
    n
}

fn find_bare_end(s: &str, i: usize) -> (r: usize)
    requires
        i <= s@.len(),
    ensures
        r == bare_end(s@, i as int),
        i <= r <= s@.len(),
{
    let n = s.unicode_len();
    let mut j: usize = i;
    while j < n
        invariant
            i <= j <= n == s@.len(),
            forall|k: int| i <= k < j ==> !is_ws(#[trigger] s@[k]) && s@[k] != '"',
        decreases n - j,
    {
        let c = s.get_char(j);
        if is_ws_exec(c) || c == '"' {
            proof {
                lemma_bare_end_determined(s@, i as int, j as int);
            }
            return j;
        }
        j += 1;
    }
    proof {
        lemma_bare_end_determined(s@, i as int, n as int);
    }
    n
}

fn find_simple_end(s: &str, i: usize) -> (r: usize)
    requires
        i <= s@.len(),
    ensures
        r == simple_end(s@, i as int),
        i <= r <= s@.len(),
{
    let n = s.unicode_len();
    let mut j: usize = i;
    while j < n
        invariant
            i <= j <= n == s@.len(),
            forall|k: int| i <= k < j ==> s@[k] != ' ',
        decreases n - j,
    {
        if s.get_char(j) == ' ' {
            proof {
                lemma_simple_end_determined(s@, i as int, j as int);
            }
            return j;
        }
        j += 1;
    }
    proof {
        lemma_simple_end_determined(s@, i as int, n as int);
    }
    n
}

/// Scans for the leftmost quote-aware match.
fn scan_complex(s: &str) -> (r: Option<String>)
    ensures
        r matches Some(t) ==> complex_from(s@, 0) == Some(t@),
        r is None ==> complex_from(s@, 0) is None,
{
    proof {
        reveal_strlit("--install-directory=");
    }
    let n = s.unicode_len();
    if n < 20 {
        assert(complex_from(s@, 0) is None);
        return None;
    }
    let mut p: usize = 0;
    while p <= n - 20
        invariant
            marker().len() == 20,
            20 <= n == s@.len(),
            p <= n - 20 + 1,
            complex_from(s@, 0) == complex_from(s@, p as int),
        decreases n - p,
    {
        if marker_at_exec(s, p) {
            let v = p + 20;
            if v < n && s.get_char(v) == '"' {
                let e = find_next_quote(s, v + 1);
                if e < n && e > v + 1 {
                    let cap = s.substring_char(v, e + 1);
                    proof {
                        assert(capture_complex_at(s@, p as int) == Some(cap@));
                    }
                    return Some(String::from_str(cap));
                }
            } else {
                let e = find_bare_end(s, v);
                if e > v {
                    let cap = s.substring_char(v, e);
                    proof {
                        assert(capture_complex_at(s@, p as int) == Some(cap@));
                    }
                    return Some(String::from_str(cap));
                }
            }
            proof {
                assert(capture_complex_at(s@, p as int) is None);
            }
        }
        p += 1;
    }
    proof {
        assert(complex_from(s@, p as int) is None);
    }
    None
}

/// Scans for the leftmost simple-pattern match.
fn scan_simple(s: &str) -> (r: Option<String>)
    ensures
        r matches Some(t) ==> simple_from(s@, 0) == Some(t@),
        r is None ==> simple_from(s@, 0) is None,
{
    proof {
        reveal_strlit("--install-directory=");
    }
    let n = s.unicode_len();
    if n < 20 {
        assert(simple_from(s@, 0) is None);
        return None;
    }
    let mut p: usize = 0;
    while p <= n - 20
        invariant
            marker().len() == 20,
            20 <= n == s@.len(),
            p <= n - 20 + 1,
            simple_from(s@, 0) == simple_from(s@, p as int),
        decreases n - p,
    {
        if marker_at_exec(s, p) {
            let v = p + 20;
            let e = find_simple_end(s, v);
            if e > v {
                let cap = s.substring_char(v, e);
                proof {
                    assert(capture_simple_at(s@, p as int) == Some(cap@));
                }
                return Some(String::from_str(cap));
            }
            proof {
                assert(capture_simple_at(s@, p as int) is None);
            }
        }
        p += 1;
    }
    proof {
        assert(simple_from(s@, p as int) is None);
    }
    None
}

/// Removes every quote character from the capture.
fn strip_quotes_exec(s: &str) -> (r: String)
    ensures
        r@ == strip_quotes(s@),
{
    let n = s.unicode_len();
    let mut out = String::new();
    let mut i: usize = 0;
    while i < n
        invariant
            n == s@.len(),
            0 <= i <= n,
            out@ == s@.take(i as int).filter(|c: char| c != '"'),
        decreases n - i,
    {
        let c = s.get_char(i);
        proof {
            assert(s@.take(i + 1).drop_last() =~= s@.take(i as int));
            reveal(Seq::filter);
        }
        if c != '"' {
            crate::strutil::push_char(&mut out, c);
        }
        i += 1;
    }
    proof {
        assert(s@.take(n as int) =~= s@);
    }
    out
}

proof fn lemma_filter_keep_all(s: Seq<char>, pred: spec_fn(char) -> bool)
    requires
        forall|i: int| 0 <= i < s.len() ==> pred(#[trigger] s[i]),
    ensures
        s.filter(pred) == s,
    decreases s.len(),
{
    reveal(Seq::filter);
    if s.len() > 0 {
        lemma_filter_keep_all(s.drop_last(), pred);
        assert(s.drop_last().push(s.last()) =~= s);
    }
}

/// Law: a bare install-directory flag resolves to its value unchanged. For
/// any non-empty value without whitespace or quote characters, the argument
/// string that is exactly the flag marker followed by that value extracts to
/// the value itself.
pub proof fn lemma_extract_bare(dir: Seq<char>)
    requires
        dir.len() > 0,
        forall|i: int| 0 <= i < dir.len() ==> !is_ws(#[trigger] dir[i]) && dir[i] != '"',
    ensures
        extract_install_dir(marker() + dir) == Some(dir),
{
    reveal_strlit("--install-directory=");
    let s = marker() + dir;
    assert(s.subrange(0, marker().len() as int) =~= marker());
    assert(marker_at(s, 0));
    assert(forall|k: int|
        20 <= k < s.len() ==> !is_ws(#[trigger] s[k]) && s[k] != '"') by {
        assert(forall|k: int| 20 <= k < s.len() ==> #[trigger] s[k] == dir[k - 20]);
    }
    lemma_bare_end_determined(s, 20, s.len() as int);
    assert(s[20] == dir[0]);
    assert(s.subrange(20, s.len() as int) =~= dir);
    assert(capture_complex_at(s, 0) == Some(dir));
    assert(complex_from(s, 0) == Some(dir));
    lemma_filter_keep_all(dir, |c: char| c != '"');
}

/// Law: a quoted install-directory flag resolves to its value with the
/// surrounding quotes stripped. For any non-empty value free of quote
/// characters (spaces are allowed), the argument string that is exactly the
/// flag marker followed by the value in quotes extracts to the bare value.
pub proof fn lemma_extract_quoted(dir: Seq<char>)
    requires
        dir.len() > 0,
        forall|i: int| 0 <= i < dir.len() ==> #[trigger] dir[i] != '"',
    ensures
        extract_install_dir(marker() + seq!['"'] + dir + seq!['"']) == Some(dir),
{
    reveal_strlit("--install-directory=");
    let q = seq!['"'];
    let s = marker() + q + dir + q;
    assert(s.len() == 22 + dir.len());
    assert(s.subrange(0, marker().len() as int) =~= marker());
    assert(marker_at(s, 0));
    assert(s[20] == '"');
    let e = 21 + dir.len() as int;
    assert(forall|k: int| 21 <= k < e ==> #[trigger] s[k] == dir[k - 21] && s[k] != '"');
    assert(s[e] == '"');
    lemma_next_quote_determined(s, 21, e);
    assert(capture_complex_at(s, 0) == Some(s.subrange(20, e + 1)));
    let cap = s.subrange(20, e + 1);
    assert(cap =~= q + dir + q);
    assert(complex_from(s, 0) == Some(cap));
    let pred = |c: char| c != '"';
    broadcast use Seq::filter_distributes_over_add;

    assert(strip_quotes(cap) == (q + dir).filter(pred) + q.filter(pred));
    assert(strip_quotes(cap) == q.filter(pred) + dir.filter(pred) + q.filter(pred));
    assert(q.filter(pred) =~= Seq::<char>::empty()) by {
        reveal_with_fuel(Seq::filter, 2);
        assert(q.drop_last() =~= Seq::<char>::empty());
    }
    lemma_filter_keep_all(dir, pred);
    assert(strip_quotes(cap) =~= dir);
}

/// Extracts the install directory from the joined argument string, exactly
/// as `extract_install_dir` describes.
pub fn extract_install_dir_exec(s: &str) -> (r: Option<String>)
    ensures
        r matches Some(d) ==> extract_install_dir(s@) == Some(d@),
        r is None ==> extract_install_dir(s@) is None,
{
    match scan_complex(s) {
        Some(c) => Some(strip_quotes_exec(c.as_str())),
        None => match scan_simple(s) {
            Some(c) => Some(strip_quotes_exec(c.as_str())),
            None => None,
        },
    }
}

} // verus!
