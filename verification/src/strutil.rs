//! String-level helpers shared by the discovery grammar and URL building:
//! decimal parsing and formatting, ASCII case folding, splitting on a
//! delimiter, and joining argument lists.

use vstd::prelude::*;

verus! {

/// True for an ASCII decimal digit.
pub open spec fn is_dec_digit(c: char) -> bool {
    '0' <= c && c <= '9'
}

/// Numeric value of one decimal digit character.
pub open spec fn dec_digit_val(c: char) -> nat {
    (c as nat - '0' as nat) as nat
}

/// A non-empty, all-digit character sequence.
pub open spec fn all_digits(s: Seq<char>) -> bool {
    s.len() >= 1 && forall|i: int| 0 <= i < s.len() ==> is_dec_digit(#[trigger] s[i])
}

/// The numeric value of a digit sequence, most significant digit first.
pub open spec fn dec_val(s: Seq<char>) -> nat
    decreases s.len(),
{
    if s.len() == 0 {
        0
    } else {
        dec_val(s.drop_last()) * 10 + dec_digit_val(s.last())
    }
}

/// The value of a digit-string prefix never exceeds the value of the whole.
pub proof fn lemma_dec_val_prefix(s: Seq<char>, i: int)
    requires
        0 <= i <= s.len(),
    ensures
        dec_val(s.take(i)) <= dec_val(s),
    decreases s.len() - i,
{
    if i < s.len() {
        lemma_dec_val_prefix(s, i + 1);
        assert(s.take(i + 1).drop_last() =~= s.take(i));
        assert(dec_val(s.take(i + 1)) == dec_val(s.take(i)) * 10 + dec_digit_val(s.take(i + 1).last()));
    } else {
        assert(s.take(i) =~= s);
    }
}

/// Parses a non-empty run of decimal digits as a `u32`, rejecting overflow.
///
/// This is the numeric core of credential-field parsing: it succeeds exactly
/// on all-digit inputs whose value fits in 32 bits, and then returns that
/// value.
pub fn parse_u32_digits(s: &str) -> (r: Option<u32>)
    ensures
        r is Some <==> all_digits(s@) && dec_val(s@) <= u32::MAX,
        r is Some ==> r->Some_0 == dec_val(s@),
{
    let n = s.unicode_len();
    if n == 0 {
        return None;
    }
    let mut i: usize = 0;
    let mut acc: u32 = 0;
    while i < n
        invariant
            0 < n == s@.len(),
            0 <= i <= n,
            forall|k: int| 0 <= k < i ==> is_dec_digit(#[trigger] s@[k]),
            acc == dec_val(s@.take(i as int)),
            dec_val(s@.take(i as int)) <= u32::MAX,
        decreases n - i,
    {
        let c = s.get_char(i);
        if !('0' <= c && c <= '9') {
            return None;
        }
        let d: u32 = (c as u32) - ('0' as u32);
        proof {
            assert(s@.take(i + 1).drop_last() =~= s@.take(i as int));
            assert(dec_val(s@.take(i + 1)) == acc * 10 + d);
        }
        if acc > (u32::MAX - d) / 10 {
            proof {
                lemma_dec_val_prefix(s@, i + 1);
            }
            return None;
        }
        acc = acc * 10 + d;
        i += 1;
    }
    proof {
        assert(s@.take(n as int) =~= s@);
    }
    Some(acc)
}

/// The character for one decimal digit value.
pub open spec fn digit_char(d: nat) -> char {
    if d == 0 {
        '0'
    } else if d == 1 {
        '1'
    } else if d == 2 {
        '2'
    } else if d == 3 {
        '3'
    } else if d == 4 {
        '4'
    } else if d == 5 {
        '5'
    } else if d == 6 {
        '6'
    } else if d == 7 {
        '7'
    } else if d == 8 {
        '8'
    } else {
        '9'
    }
}

/// The canonical decimal rendering of a natural number (no leading zeros,
/// except for the single digit of zero itself).
pub open spec fn dec_str(n: nat) -> Seq<char>
    decreases n,
{
    if n < 10 {
        seq![digit_char(n)]
    } else {
        dec_str(n / 10).push(digit_char(n % 10))
    }
}

/// The decimal rendering of a signed number: a minus sign before the
/// magnitude when negative.
pub open spec fn dec_str_signed(i: int) -> Seq<char> {
    if i >= 0 {
        dec_str(i as nat)
    } else {
        seq!['-'] + dec_str((-i) as nat)
    }
}

fn digit_str(d: u64) -> (r: &'static str)
    requires
        d < 10,
    ensures
        r@ =~= seq![digit_char(d as nat)],
{
    proof {
        reveal_strlit("0");
        reveal_strlit("1");
        reveal_strlit("2");
        reveal_strlit("3");
        reveal_strlit("4");
        reveal_strlit("5");
        reveal_strlit("6");
        reveal_strlit("7");
        reveal_strlit("8");
        reveal_strlit("9");
    }
    match d {
        0 => "0",
        1 => "1",
        2 => "2",
        3 => "3",
        4 => "4",
        5 => "5",
        6 => "6",
        7 => "7",
        8 => "8",
        _ => "9",
    }
}

/// Renders an unsigned number in decimal, matching `dec_str`.
pub fn u64_to_string(n: u64) -> (r: String)
    ensures
        r@ == dec_str(n as nat),
    decreases n,
{
    if n < 10 {
        String::from_str(digit_str(n))
    } else {
        let mut s = u64_to_string(n / 10);
        s.append(digit_str(n % 10));
        proof {
            assert(s@ =~= dec_str((n / 10) as nat).push(digit_char((n % 10) as nat)));
        }
        s
    }
}

/// Renders a signed number in decimal, matching `dec_str_signed`.
pub fn i64_to_string(n: i64) -> (r: String)
    ensures
        r@ == dec_str_signed(n as int),
{
    if n >= 0 {
        u64_to_string(n as u64)
    } else {
        let mag: u64 = ((-(n + 1)) as u64) + 1;
        let mut s = String::from_str("-");
        s.append(u64_to_string(mag).as_str());
        proof {
            reveal_strlit("-");
            assert(s@ =~= seq!['-'] + dec_str(mag as nat));
        }
        s
    }
}

/// ASCII-only case folding of one character: uppercase letters are mapped to
/// their lowercase form, every other character is unchanged.
pub open spec fn lower_char(c: char) -> char {
    if 'A' <= c && c <= 'Z' {
        ((c as u32) + 32) as char
    } else {
        c
    }
}

/// ASCII-only case folding of a character sequence.
pub open spec fn ascii_lower(s: Seq<char>) -> Seq<char> {
    s.map_values(|c: char| lower_char(c))
}

/// Decides whether `s`, after ASCII case folding, equals `t` exactly.
pub fn ascii_lower_eq(s: &str, t: &str) -> (r: bool)
    ensures
        r == (ascii_lower(s@) == t@),
{
    let ns = s.unicode_len();
    let nt = t.unicode_len();
    if ns != nt {
        return false;
    }
    let mut i: usize = 0;
    while i < ns
        invariant
            ns == s@.len() == t@.len(),
            0 <= i <= ns,
            forall|k: int| 0 <= k < i ==> lower_char(#[trigger] s@[k]) == t@[k],
        decreases ns - i,
    {
        let c = s.get_char(i);
        let lowered: char = if 'A' <= c && c <= 'Z' {
            (((c as u8) + 32)) as char
        } else {
            c
        };
        assert(lowered == lower_char(s@[i as int]));
        if lowered != t.get_char(i) {
            assert(ascii_lower(s@)[i as int] != t@[i as int]);
            return false;
        }
        i += 1;
    }
    proof {
        assert(ascii_lower(s@) =~= t@);
    }
    true
}

/// Index of the first colon in `s`, or the length of `s` when there is none.
pub open spec fn colon_idx(s: Seq<char>) -> int
    decreases s.len(),
{
    if s.len() == 0 {
        0
    } else if s[0] == ':' {
        0
    } else {
        1 + colon_idx(s.drop_first())
    }
}

pub proof fn lemma_colon_idx(s: Seq<char>)
    ensures
        0 <= colon_idx(s) <= s.len(),
        colon_idx(s) < s.len() ==> s[colon_idx(s)] == ':',
        forall|k: int| 0 <= k < colon_idx(s) ==> s[k] != ':',
    decreases s.len(),
{
    if s.len() != 0 && s[0] != ':' {
        lemma_colon_idx(s.drop_first());
        assert(forall|k: int|
            0 < k < colon_idx(s) ==> s.drop_first()[k - 1] == #[trigger] s[k] && s[k] != ':');
    }
}

/// The fields of `s`, split on colons. Splitting the empty sequence gives one
/// empty field, so there is always one more field than there are colons.
pub open spec fn split_colon(s: Seq<char>) -> Seq<Seq<char>>
    decreases s.len(),
{
    if s.len() == 0 {
        seq![Seq::<char>::empty()]
    } else if s[0] == ':' {
        seq![Seq::<char>::empty()] + split_colon(s.drop_first())
    } else {
        let rest = split_colon(s.drop_first());
        seq![seq![s[0]] + rest[0]] + rest.skip(1)
    }
}

pub proof fn lemma_split_colon_len(s: Seq<char>)
    ensures
        split_colon(s).len() >= 1,
    decreases s.len(),
{
    if s.len() != 0 {
        lemma_split_colon_len(s.drop_first());
    }
}

/// Where the first colon sits at `j` (or there is none and `j` is the
/// length), splitting takes the prefix as the first field and recurses past
/// the colon.
pub proof fn lemma_split_at_colon(s: Seq<char>, j: int)
    requires
        0 <= j <= s.len(),
        forall|k: int| 0 <= k < j ==> s[k] != ':',
        j == s.len() || s[j] == ':',
    ensures
        j == s.len() ==> split_colon(s) == seq![s],
        j < s.len() ==> split_colon(s) == seq![s.take(j)] + split_colon(s.skip(j + 1)),
    decreases j,
{
    lemma_split_colon_len(s);
    if j == 0 {
        if s.len() == 0 {
            assert(s =~= Seq::<char>::empty());
            assert(split_colon(s) == seq![s]);
        } else if j == s.len() {
        } else {
            assert(s[0] == ':');
            assert(s.take(0) =~= Seq::<char>::empty());
            assert(s.skip(1) =~= s.drop_first());
            assert(split_colon(s) =~= seq![s.take(0)] + split_colon(s.skip(1)));
        }
    } else {
        assert(s[0] != ':');
        let d = s.drop_first();
        lemma_split_colon_len(d);
        lemma_split_at_colon(d, j - 1);
        let rest = split_colon(d);
        if j == s.len() {
            assert(rest == seq![d]);
            assert(seq![s[0]] + rest[0] =~= s);
            assert(split_colon(s) =~= seq![s]);
        } else {
            assert(d[j - 1] == s[j]);
            assert(forall|k: int| 0 <= k < j - 1 ==> d[k] == s[k + 1] && #[trigger] d[k] != ':');
            assert(rest == seq![d.take(j - 1)] + split_colon(d.skip(j)));
            assert(seq![s[0]] + rest[0] =~= s.take(j));
            assert(d.skip(j) =~= s.skip(j + 1));
            assert(rest.skip(1) =~= split_colon(s.skip(j + 1)));
            assert(split_colon(s) =~= seq![s.take(j)] + split_colon(s.skip(j + 1)));
        }
    }
}

/// Finds the position of the first colon in `s`, or its length when none.
pub fn find_colon(s: &str) -> (r: usize)
    ensures
        r == colon_idx(s@),
{
    let n = s.unicode_len();
    let mut i: usize = 0;
    while i < n
        invariant
            n == s@.len(),
            0 <= i <= n,
            forall|k: int| 0 <= k < i ==> s@[k] != ':',
        decreases n - i,
    {
        if s.get_char(i) == ':' {
            proof {
                lemma_colon_idx_determined(s@, i as int);
            }
            return i;
        }
        i += 1;
    }
    proof {
        lemma_colon_idx_determined(s@, n as int);
    }
    n
}

proof fn lemma_colon_idx_determined(s: Seq<char>, j: int)
    requires
        0 <= j <= s.len(),
        forall|k: int| 0 <= k < j ==> s[k] != ':',
        j == s.len() || s[j] == ':',
    ensures
        colon_idx(s) == j,
    decreases j,
{
    if j > 0 {
        lemma_colon_idx_determined(s.drop_first(), j - 1);
    }
}

/// The views of the strings in a vector.
pub open spec fn views_of(v: Seq<String>) -> Seq<Seq<char>> {
    v.map_values(|t: String| t@)
}

/// Splits `s` into its colon-separated fields, exactly as `split_colon`
/// describes.
pub fn split_colon_exec(s: &str) -> (r: Vec<String>)
    ensures
        views_of(r@) == split_colon(s@),
    decreases s@.len(),
{
    let n = s.unicode_len();
    let j = find_colon(s);
    proof {
        lemma_colon_idx(s@);
        lemma_split_at_colon(s@, j as int);
    }
    if j == n {
        let mut v: Vec<String> = Vec::new();
        v.push(String::from_str(s));
        proof {
            assert(views_of(v@) =~= seq![s@]);
        }
        v
    } else {
        let field = s.substring_char(0, j);
        let rest = s.substring_char(j + 1, n);
        proof {
            assert(rest@ =~= s@.skip(j + 1));
            assert(field@ =~= s@.take(j as int));
        }
        let mut v = split_colon_exec(rest);
        v.insert(0, String::from_str(field));
        proof {
            assert(views_of(v@) =~= seq![s@.take(j as int)] + split_colon(s@.skip(j + 1)));
        }
        v
    }
}

/// Lexicographic order on character sequences, by code point (for UTF-8
/// text this coincides with byte order).
pub open spec fn lex_le(a: Seq<char>, b: Seq<char>) -> bool
    decreases a.len(),
{
    if a.len() == 0 {
        true
    } else if b.len() == 0 {
        false
    } else if a[0] != b[0] {
        a[0] < b[0]
    } else {
        lex_le(a.drop_first(), b.drop_first())
    }
}

/// `lex_le` is total: of any two sequences, one is less-or-equal the other.
pub proof fn lemma_lex_total(a: Seq<char>, b: Seq<char>)
    ensures
        lex_le(a, b) || lex_le(b, a),
    decreases a.len(),
{
    if a.len() > 0 && b.len() > 0 && a[0] == b[0] {
        lemma_lex_total(a.drop_first(), b.drop_first());
    }
}

/// `lex_le` is transitive.
pub proof fn lemma_lex_trans(a: Seq<char>, b: Seq<char>, c: Seq<char>)
    requires
        lex_le(a, b),
        lex_le(b, c),
    ensures
        lex_le(a, c),
    decreases a.len(),
{
    if a.len() > 0 && b.len() > 0 && c.len() > 0 && a[0] == b[0] && b[0] == c[0] {
        lemma_lex_trans(a.drop_first(), b.drop_first(), c.drop_first());
    }
}

proof fn lemma_lex_decide(a: Seq<char>, b: Seq<char>, i: int)
    requires
        0 <= i <= a.len(),
        i <= b.len(),
        forall|k: int| 0 <= k < i ==> a[k] == b[k],
    ensures
        i == a.len() ==> lex_le(a, b),
        i == b.len() && i < a.len() ==> !lex_le(a, b),
        i < a.len() && i < b.len() && a[i] < b[i] ==> lex_le(a, b),
        i < a.len() && i < b.len() && a[i] > b[i] ==> !lex_le(a, b),
    decreases i,
{
    if i > 0 {
        lemma_lex_decide(a.drop_first(), b.drop_first(), i - 1);
    }
}

/// Decides `lex_le` on two strings.
pub fn str_lex_le(a: &str, b: &str) -> (r: bool)
    ensures
        r == lex_le(a@, b@),
{
    let na = a.unicode_len();
    let nb = b.unicode_len();
    let mut i: usize = 0;
    while i < na && i < nb
        invariant
            i <= na == a@.len(),
            i <= nb == b@.len(),
            forall|k: int| 0 <= k < i ==> a@[k] == b@[k],
        decreases na - i,
    {
        let ca = a.get_char(i);
        let cb = b.get_char(i);
        if ca != cb {
            proof {
                lemma_lex_decide(a@, b@, i as int);
            }
            return ca < cb;
        }
        i += 1;
    }
    proof {
        lemma_lex_decide(a@, b@, i as int);
    }
    na <= nb
}

/// Decides character-for-character string equality.
pub fn str_eq(a: &str, b: &str) -> (r: bool)
    ensures
        r == (a@ == b@),
{
    let na = a.unicode_len();
    let nb = b.unicode_len();
    if na != nb {
        return false;
    }
    let mut i: usize = 0;
    while i < na
        invariant
            na == a@.len() == b@.len(),
            0 <= i <= na,
            forall|k: int| 0 <= k < i ==> a@[k] == b@[k],
        decreases na - i,
    {
        if a.get_char(i) != b.get_char(i) {
            assert(a@[i as int] != b@[i as int]);
            return false;
        }
        i += 1;
    }
    proof {
        assert(a@ =~= b@);
    }
    true
}

/// Relies on std's `String::push`: appends exactly the given character.
#[verifier::external_body]
pub fn push_char(s: &mut String, c: char)
    ensures
        final(s)@ == old(s)@.push(c),
{
    s.push(c);
}

/// The parts joined with single spaces between them.
pub open spec fn join_space(parts: Seq<Seq<char>>) -> Seq<char>
    decreases parts.len(),
{
    if parts.len() == 0 {
        Seq::<char>::empty()
    } else if parts.len() == 1 {
        parts[0]
    } else {
        parts[0] + seq![' '] + join_space(parts.skip(1))
    }
}

proof fn lemma_join_space_push(parts: Seq<Seq<char>>, x: Seq<char>)
    ensures
        parts.len() == 0 ==> join_space(parts.push(x)) == x,
        parts.len() > 0 ==> join_space(parts.push(x)) == join_space(parts) + seq![' '] + x,
    decreases parts.len(),
{
    if parts.len() == 0 {
        assert(parts.push(x)[0] == x);
        assert(join_space(parts.push(x)) == x);
    } else if parts.len() == 1 {
        let p = parts.push(x);
        assert(p.skip(1) =~= seq![x]);
        assert(join_space(p) == p[0] + seq![' '] + join_space(p.skip(1)));
        assert(join_space(p.skip(1)) == x);
    } else {
        lemma_join_space_push(parts.skip(1), x);
        let p = parts.push(x);
        assert(p.skip(1) =~= parts.skip(1).push(x));
        assert(join_space(p) == p[0] + seq![' '] + join_space(parts.skip(1).push(x)));
        assert(join_space(parts.push(x)) =~= join_space(parts) + seq![' '] + x);
    }
}

/// Joins the arguments with single spaces, exactly as `join_space` describes.
pub fn join_args(args: &Vec<String>) -> (r: String)
    ensures
        r@ == join_space(views_of(args@)),
{
    let mut out = String::new();
    let mut i: usize = 0;
    while i < args.len()
        invariant
            0 <= i <= args@.len(),
            out@ == join_space(views_of(args@.take(i as int))),
        decreases args@.len() - i,
    {
        if i > 0 {
            out.append(" ");
            proof {
                reveal_strlit(" ");
            }
        }
        out.append(args[i].as_str());
        proof {
            let prev = views_of(args@.take(i as int));
            lemma_join_space_push(prev, args@[i as int]@);
            assert(views_of(args@.take(i + 1)) =~= prev.push(args@[i as int]@));
            if i > 0 {
                assert(out@ =~= join_space(views_of(args@.take(i + 1))));
            } else {
                assert(out@ =~= join_space(views_of(args@.take(i + 1))));
            }
        }
        i += 1;
    }
    proof {
        assert(args@.take(args@.len() as int) =~= args@);
    }
    out
}

} // verus!
