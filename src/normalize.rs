//! Canonical forms of the raw address and comment fields.

use vstd::prelude::*;
use vstd::string::StrSliceExecFns;
use vstd::string::StringExecFns;

verus! {

/// The separator after which an address carries no more meaning.
pub const ADDRESS_SEPARATOR: char = '\\';

/// Whether `c` has the Unicode `White_Space` property, the whitespace that
/// `str::trim` removes.
pub open spec fn is_white_space(c: char) -> bool {
    let u = c as u32;
    (0x09 <= u <= 0x0D) || u == 0x20 || u == 0x85 || u == 0xA0 || u == 0x1680 || (0x2000 <= u
        <= 0x200A) || u == 0x2028 || u == 0x2029 || u == 0x202F || u == 0x205F || u == 0x3000
}

/// `s` without its leading whitespace.
pub open spec fn trim_start(s: Seq<char>) -> Seq<char>
    decreases s.len(),
{
    if s.len() > 0 && is_white_space(s[0]) {
        trim_start(s.subrange(1, s.len() as int))
    } else {
        s
    }
}

/// `s` without its trailing whitespace.
pub open spec fn trim_end(s: Seq<char>) -> Seq<char>
    decreases s.len(),
{
    if s.len() > 0 && is_white_space(s.last()) {
        trim_end(s.drop_last())
    } else {
        s
    }
}

/// `s` without its leading and trailing whitespace.
pub open spec fn trim(s: Seq<char>) -> Seq<char> {
    trim_end(trim_start(s))
}

/// Whether `i` is the position of the first separator in `s`.
pub open spec fn is_first_separator(s: Seq<char>, i: int) -> bool {
    &&& 0 <= i < s.len()
    &&& s[i] == ADDRESS_SEPARATOR
    &&& forall|j: int| 0 <= j < i ==> s[j] != ADDRESS_SEPARATOR
}

/// The position of the first separator in `s`, or its length if it has none.
pub open spec fn separator_index(s: Seq<char>) -> int {
    if exists|i: int| is_first_separator(s, i) {
        choose|i: int| is_first_separator(s, i)
    } else {
        s.len() as int
    }
}

/// The part of `s` before its first separator (all of `s` if it has none).
pub open spec fn before_separator(s: Seq<char>) -> Seq<char> {
    s.subrange(0, separator_index(s))
}

/// `s` with every two-character sequence `\n` (a backslash, then `n`)
/// replaced by one space, scanning from the left.
pub open spec fn fold_line_breaks(s: Seq<char>) -> Seq<char>
    decreases s.len(),
{
    if s.len() >= 2 && s[0] == '\\' && s[1] == 'n' {
        seq![' '] + fold_line_breaks(s.subrange(2, s.len() as int))
    } else if s.len() >= 1 {
        seq![s[0]] + fold_line_breaks(s.subrange(1, s.len() as int))
    } else {
        s
    }
}

/// The canonical address of a raw address field: trimmed, then cut at the
/// first separator.
pub open spec fn canonical_address(raw: Seq<char>) -> Seq<char> {
    before_separator(trim(raw))
}

/// The text that stands for a comment with no text of its own.
pub const MISSING_COMMENT: &'static str = "Not found";

/// The canonical comment of a raw comment field: escaped line breaks folded
/// to spaces, then trimmed; a comment left empty becomes `MISSING_COMMENT`.
pub open spec fn canonical_comment(raw: Seq<char>) -> Seq<char> {
    let t = trim(fold_line_breaks(raw));
    if t.len() == 0 {
        MISSING_COMMENT@
    } else {
        t
    }
}

/// Leading whitespace removal keeps a suffix of `s`, which is empty or
/// starts with a character that is not whitespace.
proof fn lemma_trim_start_shape(s: Seq<char>)
    ensures
        exists|k: int| 0 <= k <= s.len() && trim_start(s) == s.subrange(k, s.len() as int),
        trim_start(s).len() == 0 || !is_white_space(trim_start(s)[0]),
    decreases s.len(),
{
    if s.len() > 0 && is_white_space(s[0]) {
        let rest = s.subrange(1, s.len() as int);
        lemma_trim_start_shape(rest);
        let k = choose|k: int| 0 <= k <= rest.len() && trim_start(rest) == rest.subrange(k, rest.len() as int);
        assert(rest.subrange(k, rest.len() as int) =~= s.subrange(k + 1, s.len() as int));
    } else {
        assert(s.subrange(0, s.len() as int) =~= s);
    }
}

/// Trailing whitespace removal keeps a prefix of `s`, which is empty or
/// ends with a character that is not whitespace.
proof fn lemma_trim_end_shape(s: Seq<char>)
    ensures
        exists|m: int| 0 <= m <= s.len() && trim_end(s) == s.subrange(0, m),
        trim_end(s).len() == 0 || !is_white_space(trim_end(s).last()),
    decreases s.len(),
{
    if s.len() > 0 && is_white_space(s.last()) {
        lemma_trim_end_shape(s.drop_last());
        let m = choose|m: int| 0 <= m <= s.drop_last().len() && trim_end(s.drop_last()) == s.drop_last().subrange(0, m);
        assert(s.drop_last().subrange(0, m) =~= s.subrange(0, m));
    } else {
        assert(s.subrange(0, s.len() as int) =~= s);
    }
}

/// Trimming twice is trimming once, and a trimmed sequence holds only
/// characters of the original.
proof fn lemma_trim_idempotent(s: Seq<char>)
    ensures
        trim(trim(s)) == trim(s),
        forall|i: int| 0 <= i < trim(s).len() ==> s.contains(#[trigger] trim(s)[i]),
{
    let u = trim_start(s);
    lemma_trim_start_shape(s);
    lemma_trim_end_shape(u);
    let k = choose|k: int| 0 <= k <= s.len() && u == s.subrange(k, s.len() as int);
    let m = choose|m: int| 0 <= m <= u.len() && trim_end(u) == u.subrange(0, m);
    let v = trim_end(u);
    if v.len() > 0 {
        assert(v[0] == u[0]);
    }
    assert(trim_start(v) == v);
    assert(trim_end(v) == v);
    assert forall|i: int| 0 <= i < v.len() implies s.contains(#[trigger] v[i]) by {
        assert(v[i] == s[k + i]);
    }
}

/// Normalizing an address that holds no separator a second time changes
/// nothing: the canonical form of such an address is a fixed point.
pub proof fn lemma_normalize_address_idempotent(x: Seq<char>)
    requires
        forall|i: int| 0 <= i < x.len() ==> x[i] != ADDRESS_SEPARATOR,
    ensures
        canonical_address(canonical_address(x)) == canonical_address(x),
{
    let t = trim(x);
    lemma_trim_idempotent(x);
    assert forall|i: int| 0 <= i < t.len() implies t[i] != ADDRESS_SEPARATOR by {
        assert(x.contains(t[i]));
    }
    assert(!exists|i: int| is_first_separator(t, i));
    assert(before_separator(t) =~= t);
}

/// Whether `c` is whitespace in the sense of `is_white_space`.
pub fn is_white_space_char(c: char) -> (r: bool)
    ensures
        r == is_white_space(c),
{
    let u = c as u32;
    (0x09 <= u && u <= 0x0D) || u == 0x20 || u == 0x85 || u == 0xA0 || u == 0x1680 || (0x2000
        <= u && u <= 0x200A) || u == 0x2028 || u == 0x2029 || u == 0x202F || u == 0x205F || u
        == 0x3000
}

/// `s` without its leading and trailing whitespace.
pub fn trim_white_space(s: &str) -> (r: String)
    ensures
        r@ == trim(s@),
{
    let n = s.unicode_len();
    let mut i: usize = 0;
    assert(s@.subrange(0, n as int) =~= s@);
    while i < n && is_white_space_char(s.get_char(i))
        invariant
            n == s@.len(),
            i <= n,
            trim_start(s@) == trim_start(s@.subrange(i as int, n as int)),
        decreases n - i,
    {
        assert(s@.subrange(i as int, n as int).subrange(1, (n - i) as int) =~= s@.subrange(
            i + 1,
            n as int,
        ));
        i = i + 1;
    }
    let mut j: usize = n;
    while j > i && is_white_space_char(s.get_char(j - 1))
        invariant
            n == s@.len(),
            i <= j <= n,
            trim(s@) == trim_end(s@.subrange(i as int, j as int)),
        decreases j - i,
    {
        assert(s@.subrange(i as int, j as int).drop_last() =~= s@.subrange(i as int, j - 1));
        j = j - 1;
    }
    s.substring_char(i, j).to_string()
}

/// The canonical form of a raw address field.
pub fn normalize_address(raw: &str) -> (r: String)
    ensures
        r@ == canonical_address(raw@),
{
    let t = trim_white_space(raw);
    let ts = t.as_str();
    let n = ts.unicode_len();
    let mut k: usize = 0;
    while k < n && ts.get_char(k) != ADDRESS_SEPARATOR
        invariant
            n == t@.len(),
            ts@ == t@,
            k <= n,
            forall|j: int| 0 <= j < k ==> t@[j] != ADDRESS_SEPARATOR,
        decreases n - k,
    {
        k = k + 1;
    }
    proof {
        if k < n {
            assert(is_first_separator(t@, k as int));
            let c = choose|i: int| is_first_separator(t@, i);
            assert(c == k) by {
                if c < k {
                } else if c > k {
                }
            }
        } else {
            assert(!exists|i: int| is_first_separator(t@, i));
        }
    }
    ts.substring_char(0, k).to_string()
}

/// The canonical form of a raw comment field.
pub fn normalize_comment(raw: &str) -> (r: String)
    ensures
        r@ == canonical_comment(raw@),
{
    let n = raw.unicode_len();
    let mut folded = String::new();
    let mut i: usize = 0;
    assert(raw@.subrange(0, n as int) =~= raw@);
    assert(folded@ =~= Seq::<char>::empty());
    while i < n
        invariant
            n == raw@.len(),
            i <= n,
            fold_line_breaks(raw@) == folded@ + fold_line_breaks(raw@.subrange(i as int, n as int)),
        decreases n - i,
    {
        let ghost rest = raw@.subrange(i as int, n as int);
        if i + 1 < n && raw.get_char(i) == '\\' && raw.get_char(i + 1) == 'n' {
            assert(rest.subrange(2, rest.len() as int) =~= raw@.subrange(i + 2, n as int));
            proof {
                reveal_strlit(" ");
            }
            assert(fold_line_breaks(rest) == seq![' '] + fold_line_breaks(
                rest.subrange(2, rest.len() as int),
            ));
            folded.append(" ");
            i = i + 2;
        } else {
            assert(rest.subrange(1, rest.len() as int) =~= raw@.subrange(i + 1, n as int));
            assert(fold_line_breaks(rest) == seq![rest[0]] + fold_line_breaks(
                rest.subrange(1, rest.len() as int),
            ));
            let one = raw.substring_char(i, i + 1);
            assert(one@ =~= seq![rest[0]]);
            folded.append(one);
            i = i + 1;
        }
    }
    let t = trim_white_space(folded.as_str());
    if t.unicode_len() == 0 {
        MISSING_COMMENT.to_string()
    } else {
        t
    }
}

} // verus!
