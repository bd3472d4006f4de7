//! Character-level text operations with their specifications.
//!
//! Text is modelled as `Seq<char>` (the view of `str` and `String`).  The
//! executable functions here work on `&[char]` and are proved against the
//! spec functions, which follow the documented behaviour of the standard
//! library operations they stand for (`str::contains`, `str::trim`,
//! `str::lines`, `str::splitn`, `u64::from_str`, ...).

use vstd::prelude::*;

verus! {

// ───────────────────────────── outside calls ─────────────────────────────

/// Appends one character to a `String` (`String::push`): the new view is
/// the old one with `c` at the end.
#[verifier::external_body]
pub(crate) fn push_char(s: &mut String, c: char)
    ensures
        final(s)@ == old(s)@.push(c),
{
    s.push(c);
}

/// What `str::to_lowercase` returns for a text (Unicode case mapping).
pub uninterp spec fn lowercase(s: Seq<char>) -> Seq<char>;

/// What `str::to_uppercase` returns for a text (Unicode case mapping).
pub uninterp spec fn uppercase(s: Seq<char>) -> Seq<char>;

/// Every character of `s` is ASCII.
pub open spec fn is_ascii_text(s: Seq<char>) -> bool {
    forall|i: int| 0 <= i < s.len() ==> (#[trigger] s[i] as u32) < 0x80
}

/// The ASCII lower-case form of a character: `A`..=`Z` become `a`..=`z`.
pub open spec fn ascii_lower_char(c: char) -> char {
    if 'A' <= c && c <= 'Z' {
        (c as u32 + 32) as char
    } else {
        c
    }
}

/// The ASCII upper-case form of a character: `a`..=`z` become `A`..=`Z`.
pub open spec fn ascii_upper_char(c: char) -> char {
    if 'a' <= c && c <= 'z' {
        (c as u32 - 32) as char
    } else {
        c
    }
}

/// `s` with its ASCII letters lower-cased (`str::to_ascii_lowercase`).
pub open spec fn ascii_lower(s: Seq<char>) -> Seq<char> {
    s.map_values(|c: char| ascii_lower_char(c))
}

/// `s` with its ASCII letters upper-cased (`str::to_ascii_uppercase`).
pub open spec fn ascii_upper(s: Seq<char>) -> Seq<char> {
    s.map_values(|c: char| ascii_upper_char(c))
}

/// Calls `str::to_lowercase`; the result is the named `lowercase` of the
/// argument.  For ASCII text it is the ASCII lower-case form (the Unicode
/// lower-case mapping of an ASCII character is its ASCII lower case); the
/// table-driven mapping of other characters is not stated.
#[verifier::external_body]
pub(crate) fn to_lowercase(s: &str) -> (r: String)
    ensures
        r@ == lowercase(s@),
        is_ascii_text(s@) ==> r@ == ascii_lower(s@),
{
    s.to_lowercase()
}

/// Calls `str::to_uppercase`; the result is the named `uppercase` of the
/// argument.  For ASCII text it is the ASCII upper-case form; the
/// table-driven mapping of other characters is not stated.
#[verifier::external_body]
pub(crate) fn to_uppercase(s: &str) -> (r: String)
    ensures
        r@ == uppercase(s@),
        is_ascii_text(s@) ==> r@ == ascii_upper(s@),
{
    s.to_uppercase()
}

// ───────────────────────────── conversions ─────────────────────────────

/// The characters of `s`, in order.
pub fn chars_of(s: &str) -> (v: Vec<char>)
    ensures
        v@ == s@,
{
    let mut v: Vec<char> = Vec::new();
    for c in it: s.chars()
        invariant
            v@ == it.seq().take(it.index() as int),
    {
        v.push(c);
    }
    v
}

/// Appends the characters of `v` to `s`.
pub fn push_chars(s: &mut String, v: &[char])
    ensures
        final(s)@ == old(s)@ + v@,
{
    let mut i: usize = 0;
    while i < v.len()
        invariant
            i <= v.len(),
            s@ == old(s)@ + v@.take(i as int),
        decreases v.len() - i,
    {
        push_char(s, v[i]);
        i = i + 1;
        assert(v@.take(i as int) =~= v@.take(i - 1).push(v@[i - 1]));
    }
    assert(v@.take(v.len() as int) =~= v@);
}

/// Appends the characters of `t` to `s`.
pub fn push_str(s: &mut String, t: &str)
    ensures
        final(s)@ == old(s)@ + t@,
{
    let v = chars_of(t);
    push_chars(s, v.as_slice());
}

/// The string made of the characters of `v`.
pub fn string_of(v: &[char]) -> (s: String)
    ensures
        s@ == v@,
{
    let mut s = String::new();
    push_chars(&mut s, v);
    s
}

/// A fresh `String` with the characters of `t`.
pub fn owned(t: &str) -> (s: String)
    ensures
        s@ == t@,
{
    let mut s = String::new();
    push_str(&mut s, t);
    s
}

// ───────────────────────────── searching ─────────────────────────────

/// `n` occurs in `h` at position `i`.
pub open spec fn matches_at(h: Seq<char>, n: Seq<char>, i: int) -> bool {
    0 <= i && i + n.len() <= h.len() && h.subrange(i, i + n.len()) =~= n
}

/// The first position at or after `i` where `n` occurs in `h`.
pub open spec fn find_from(h: Seq<char>, n: Seq<char>, i: int) -> Option<int>
    decreases h.len() - i,
{
    if i < 0 || i + n.len() > h.len() {
        None
    } else if matches_at(h, n, i) {
        Some(i)
    } else {
        find_from(h, n, i + 1)
    }
}

/// The first position where `n` occurs in `h` (`str::find`).
pub open spec fn find_seq(h: Seq<char>, n: Seq<char>) -> Option<int> {
    find_from(h, n, 0)
}

/// `n` occurs somewhere in `h` (`str::contains`).
#[verifier::opaque]
pub open spec fn seq_contains(h: Seq<char>, n: Seq<char>) -> bool {
    find_seq(h, n) is Some
}

/// `h` begins with `p` (`str::starts_with`).
pub open spec fn seq_starts_with(h: Seq<char>, p: Seq<char>) -> bool {
    p.len() <= h.len() && h.take(p.len() as int) =~= p
}

pub proof fn lemma_find_from_bounds(h: Seq<char>, n: Seq<char>, i: int)
    requires
        0 <= i,
    ensures
        find_from(h, n, i) matches Some(k) ==> i <= k && matches_at(h, n, k),
        find_from(h, n, i) is None ==> forall|k: int| i <= k ==> !#[trigger] matches_at(h, n, k),
    decreases h.len() - i,
{
    if i + n.len() <= h.len() && !matches_at(h, n, i) {
        lemma_find_from_bounds(h, n, i + 1);
    }
}

/// First position of `n` in `h`, searching from the start.
pub fn find(h: &[char], n: &[char]) -> (r: Option<usize>)
    ensures
        r matches Some(k) ==> find_seq(h@, n@) == Some(k as int),
        r is None ==> find_seq(h@, n@) is None,
{
    if n.len() > h.len() {
        return None;
    }
    let last = h.len() - n.len();
    let mut i: usize = 0;
    while i <= last
        invariant
            last == h.len() - n.len(),
            n.len() <= h.len(),
            find_from(h@, n@, 0) == find_from(h@, n@, i as int),
        decreases last + 1 - i,
    {
        let mut j: usize = 0;
        let mut ok = true;
        while j < n.len()
            invariant
                i <= last,
                last == h.len() - n.len(),
                j <= n.len(),
                ok == (forall|k: int| 0 <= k < j ==> h@[i + k] == n@[k]),
            decreases n.len() - j,
        {
            if h[i + j] != n[j] {
                ok = false;
            }
            j = j + 1;
        }
        if ok {
            assert(h@.subrange(i as int, i + n.len()) =~= n@);
            return Some(i);
        }
        assert(!matches_at(h@, n@, i as int)) by {
            if matches_at(h@, n@, i as int) {
                assert forall|k: int| 0 <= k < n.len() implies h@[i + k] == n@[k] by {
                    assert(h@.subrange(i as int, i + n.len())[k] == h@[i + k]);
                }
            }
        }
        i = i + 1;
    }
    None
}

/// `h` contains `n`.
pub fn contains(h: &[char], n: &[char]) -> (r: bool)
    ensures
        r == seq_contains(h@, n@),
{
    reveal(seq_contains);
    find(h, n).is_some()
}

/// `h` contains the text `n`.
pub fn contains_str(h: &[char], n: &str) -> (r: bool)
    ensures
        r == seq_contains(h@, n@),
{
    let nv = chars_of(n);
    contains(h, nv.as_slice())
}

/// `h` begins with `p`.
pub fn starts_with(h: &[char], p: &[char]) -> (r: bool)
    ensures
        r == seq_starts_with(h@, p@),
{
    if p.len() > h.len() {
        return false;
    }
    let mut j: usize = 0;
    while j < p.len()
        invariant
            p.len() <= h.len(),
            j <= p.len(),
            forall|k: int| 0 <= k < j ==> h@[k] == p@[k],
        decreases p.len() - j,
    {
        if h[j] != p[j] {
            assert(h@.take(p.len() as int)[j as int] != p@[j as int]);
            return false;
        }
        j = j + 1;
    }
    assert(h@.take(p.len() as int) =~= p@);
    true
}

/// `h` begins with the text `p`.
pub fn starts_with_str(h: &[char], p: &str) -> (r: bool)
    ensures
        r == seq_starts_with(h@, p@),
{
    let pv = chars_of(p);
    starts_with(h, pv.as_slice())
}

// ───────────────────────────── slicing ─────────────────────────────

/// The characters of `v` from `lo` (inclusive) to `hi` (exclusive).
pub fn slice_chars(v: &[char], lo: usize, hi: usize) -> (r: Vec<char>)
    requires
        lo <= hi <= v.len(),
    ensures
        r@ == v@.subrange(lo as int, hi as int),
{
    let mut r: Vec<char> = Vec::new();
    let mut i = lo;
    while i < hi
        invariant
            lo <= i <= hi <= v.len(),
            r@ == v@.subrange(lo as int, i as int),
        decreases hi - i,
    {
        r.push(v[i]);
        i = i + 1;
        assert(r@ =~= v@.subrange(lo as int, i as int));
    }
    r
}

// ───────────────────────────── whitespace ─────────────────────────────

/// The Unicode `White_Space` property (`char::is_whitespace`).
pub open spec fn is_white(c: char) -> bool {
    ||| ('\u{9}' <= c && c <= '\u{d}')
    ||| c == ' '
    ||| c == '\u{85}'
    ||| c == '\u{a0}'
    ||| c == '\u{1680}'
    ||| ('\u{2000}' <= c && c <= '\u{200a}')
    ||| c == '\u{2028}'
    ||| c == '\u{2029}'
    ||| c == '\u{202f}'
    ||| c == '\u{205f}'
    ||| c == '\u{3000}'
}

pub fn is_whitespace(c: char) -> (r: bool)
    ensures
        r == is_white(c),
{
    ('\u{9}' <= c && c <= '\u{d}') || c == ' ' || c == '\u{85}' || c == '\u{a0}' || c
        == '\u{1680}' || ('\u{2000}' <= c && c <= '\u{200a}') || c == '\u{2028}' || c
        == '\u{2029}' || c == '\u{202f}' || c == '\u{205f}' || c == '\u{3000}'
}

/// `s` without its leading white space (`str::trim_start`).
pub open spec fn trim_start(s: Seq<char>) -> Seq<char>
    decreases s.len(),
{
    if s.len() > 0 && is_white(s[0]) {
        trim_start(s.drop_first())
    } else {
        s
    }
}

/// `s` without its trailing white space (`str::trim_end`).
pub open spec fn trim_end(s: Seq<char>) -> Seq<char>
    decreases s.len(),
{
    if s.len() > 0 && is_white(s.last()) {
        trim_end(s.drop_last())
    } else {
        s
    }
}

/// `s` without leading and trailing white space (`str::trim`).
pub open spec fn trim(s: Seq<char>) -> Seq<char> {
    trim_end(trim_start(s))
}

proof fn lemma_trim_start_skip(s: Seq<char>, i: int)
    requires
        0 <= i <= s.len(),
        forall|k: int| 0 <= k < i ==> is_white(#[trigger] s[k]),
    ensures
        trim_start(s) == trim_start(s.skip(i)),
    decreases i,
{
    if i > 0 {
        lemma_trim_start_skip(s, i - 1);
        assert(s.skip(i - 1).drop_first() =~= s.skip(i));
    } else {
        assert(s.skip(0) =~= s);
    }
}

proof fn lemma_trim_end_take(s: Seq<char>, i: int)
    requires
        0 <= i <= s.len(),
        forall|k: int| i <= k < s.len() ==> is_white(#[trigger] s[k]),
    ensures
        trim_end(s) == trim_end(s.take(i)),
    decreases s.len() - i,
{
    if i < s.len() {
        lemma_trim_end_take(s, i + 1);
        assert(s.take(i + 1).drop_last() =~= s.take(i));
    } else {
        assert(s.take(i) =~= s);
    }
}

/// `v` without leading and trailing white space.
pub fn trim_chars(v: &[char]) -> (r: Vec<char>)
    ensures
        r@ == trim(v@),
{
    let mut lo: usize = 0;
    while lo < v.len() && is_whitespace(v[lo])
        invariant
            lo <= v.len(),
            forall|k: int| 0 <= k < lo ==> is_white(#[trigger] v@[k]),
        decreases v.len() - lo,
    {
        lo = lo + 1;
    }
    proof {
        lemma_trim_start_skip(v@, lo as int);
    }
    let ghost t = v@.skip(lo as int);
    assert(trim_start(t) == t);
    let mut hi: usize = v.len();
    while hi > lo && is_whitespace(v[hi - 1])
        invariant
            lo <= hi <= v.len(),
            forall|k: int| hi <= k < v.len() ==> is_white(#[trigger] v@[k]),
        decreases hi,
    {
        hi = hi - 1;
    }
    proof {
        lemma_trim_end_take(t, hi - lo);
        assert(t.take(hi - lo) =~= v@.subrange(lo as int, hi as int));
        let u = v@.subrange(lo as int, hi as int);
        if u.len() > 0 {
            assert(u.last() == v@[hi - 1]);
        }
    }
    slice_chars(v, lo, hi)
}

// ───────────────────────────── prefixes ─────────────────────────────

/// `s` with every leading copy of `p` removed (`str::trim_start_matches`).
pub open spec fn trim_start_matches(s: Seq<char>, p: Seq<char>) -> Seq<char>
    decreases s.len(),
{
    if p.len() > 0 && seq_starts_with(s, p) {
        trim_start_matches(s.skip(p.len() as int), p)
    } else {
        s
    }
}

/// Removes every leading copy of the text `p` from `v`.
pub fn trim_start_matches_str(v: &[char], p: &str) -> (r: Vec<char>)
    ensures
        r@ == trim_start_matches(v@, p@),
{
    let pv = chars_of(p);
    if pv.len() == 0 {
        return slice_chars(v, 0, v.len());
    }
    let mut lo: usize = 0;
    let mut cur = slice_chars(v, 0, v.len());
    assert(v@.subrange(0, v.len() as int) =~= v@);
    while starts_with(cur.as_slice(), pv.as_slice())
        invariant
            pv@ == p@,
            pv.len() > 0,
            lo <= v.len(),
            cur@ == v@.skip(lo as int),
            trim_start_matches(v@, p@) == trim_start_matches(cur@, p@),
        decreases cur.len(),
    {
        lo = lo + pv.len();
        let next = slice_chars(v, lo, v.len());
        assert(next@ =~= cur@.skip(pv.len() as int));
        cur = next;
    }
    cur
}

/// `s` with the prefix `p` removed when it is there (`str::strip_prefix`).
pub open spec fn strip_prefix(s: Seq<char>, p: Seq<char>) -> Option<Seq<char>> {
    if seq_starts_with(s, p) {
        Some(s.skip(p.len() as int))
    } else {
        None
    }
}

/// `v` with the prefix `p` removed, when `v` begins with it.
pub fn strip_prefix_str(v: &[char], p: &str) -> (r: Option<Vec<char>>)
    ensures
        r matches Some(t) ==> strip_prefix(v@, p@) == Some(t@),
        r is None ==> strip_prefix(v@, p@) is None,
{
    let pv = chars_of(p);
    if starts_with(v, pv.as_slice()) {
        Some(slice_chars(v, pv.len(), v.len()))
    } else {
        None
    }
}

// ───────────────────────────── lines, fields, joining ─────────────────────────────

/// The views of a sequence of character vectors.
pub open spec fn views(v: Seq<Vec<char>>) -> Seq<Seq<char>> {
    v.map_values(|x: Vec<char>| x@)
}

/// `s` without one trailing carriage return.
pub open spec fn strip_cr(s: Seq<char>) -> Seq<char> {
    if s.len() > 0 && s.last() == '\r' {
        s.drop_last()
    } else {
        s
    }
}

/// The lines of `s`, given the part `cur` of the current line already read.
pub open spec fn lines_acc(s: Seq<char>, cur: Seq<char>) -> Seq<Seq<char>>
    decreases s.len(),
{
    if s.len() == 0 {
        if cur.len() == 0 {
            seq![]
        } else {
            seq![cur]
        }
    } else if s[0] == '\n' {
        seq![strip_cr(cur)] + lines_acc(s.drop_first(), seq![])
    } else {
        lines_acc(s.drop_first(), cur.push(s[0]))
    }
}

/// The lines of `s` (`str::lines`): split at `\n`, a `\r` right before a
/// `\n` dropped, and no empty last line after a final `\n`.
pub open spec fn lines_of(s: Seq<char>) -> Seq<Seq<char>> {
    lines_acc(s, seq![])
}

/// `v` without one trailing carriage return.
fn strip_cr_vec(v: Vec<char>) -> (r: Vec<char>)
    ensures
        r@ == strip_cr(v@),
{
    let mut v = v;
    if v.len() > 0 && v[v.len() - 1] == '\r' {
        v.pop();
    }
    v
}

/// The lines of `v`.
pub fn lines(v: &[char]) -> (r: Vec<Vec<char>>)
    ensures
        views(r@) == lines_of(v@),
{
    let mut out: Vec<Vec<char>> = Vec::new();
    let mut cur: Vec<char> = Vec::new();
    let mut i: usize = 0;
    assert(v@.skip(0) =~= v@);
    assert(views(out@) =~= seq![]);
    while i < v.len()
        invariant
            i <= v.len(),
            lines_of(v@) == views(out@) + lines_acc(v@.skip(i as int), cur@),
        decreases v.len() - i,
    {
        let ghost rest = v@.skip(i as int);
        let ghost before = views(out@);
        let ghost oc = cur@;
        assert(rest.drop_first() =~= v@.skip(i + 1));
        assert(rest[0] == v@[i as int]);
        if v[i] == '\n' {
            let line = strip_cr_vec(cur);
            let ghost lv = line@;
            out.push(line);
            cur = Vec::new();
            assert(views(out@) =~= before + seq![lv]);
            assert(lines_acc(rest, oc) == seq![strip_cr(oc)] + lines_acc(v@.skip(i + 1), seq![]));
            assert(cur@ =~= seq![]);
        } else {
            cur.push(v[i]);
            assert(lines_acc(rest, oc) == lines_acc(v@.skip(i + 1), oc.push(v@[i as int])));
        }
        i = i + 1;
    }
    if cur.len() > 0 {
        let ghost before = views(out@);
        let ghost cv = cur@;
        out.push(cur);
        assert(views(out@) =~= before + seq![cv]);
    } else {
        assert(views(out@) + seq![] =~= views(out@));
    }
    out
}

/// The pieces of `s` split at `sep`, at most `n` of them, given the part
/// `cur` of the current piece already read.
pub open spec fn splitn_acc(s: Seq<char>, sep: char, n: nat, cur: Seq<char>) -> Seq<Seq<char>>
    decreases s.len(),
{
    if s.len() == 0 {
        seq![cur]
    } else if n > 1 && s[0] == sep {
        seq![cur] + splitn_acc(s.drop_first(), sep, (n - 1) as nat, seq![])
    } else {
        splitn_acc(s.drop_first(), sep, n, cur.push(s[0]))
    }
}

/// `str::splitn(n, sep)`: the pieces of `s` between separators, the last
/// piece holding the rest once `n - 1` separators have been used.
pub open spec fn splitn(s: Seq<char>, sep: char, n: nat) -> Seq<Seq<char>> {
    if n == 0 {
        seq![]
    } else {
        splitn_acc(s, sep, n, seq![])
    }
}

/// The pieces of `v` split at `sep`, at most `n` of them.
pub fn splitn_chars(v: &[char], sep: char, n: usize) -> (r: Vec<Vec<char>>)
    ensures
        views(r@) == splitn(v@, sep, n as nat),
{
    let mut out: Vec<Vec<char>> = Vec::new();
    if n == 0 {
        assert(views(out@) =~= seq![]);
        return out;
    }
    let mut left: usize = n;
    let mut cur: Vec<char> = Vec::new();
    let mut i: usize = 0;
    assert(v@.skip(0) =~= v@);
    assert(views(out@) =~= seq![]);
    while i < v.len()
        invariant
            i <= v.len(),
            left >= 1,
            splitn(v@, sep, n as nat) == views(out@) + splitn_acc(v@.skip(i as int), sep, left as nat, cur@),
        decreases v.len() - i,
    {
        let ghost rest = v@.skip(i as int);
        let ghost before = views(out@);
        let ghost oc = cur@;
        assert(rest.drop_first() =~= v@.skip(i + 1));
        assert(rest[0] == v@[i as int]);
        if left > 1 && v[i] == sep {
            let piece = cur;
            out.push(piece);
            cur = Vec::new();
            assert(views(out@) =~= before + seq![oc]);
            assert(splitn_acc(rest, sep, left as nat, oc) == seq![oc] + splitn_acc(v@.skip(i + 1), sep, (left - 1) as nat, seq![]));
            assert(cur@ =~= seq![]);
            left = left - 1;
        } else {
            cur.push(v[i]);
            assert(splitn_acc(rest, sep, left as nat, oc) == splitn_acc(v@.skip(i + 1), sep, left as nat, oc.push(v@[i as int])));
        }
        i = i + 1;
    }
    let ghost before = views(out@);
    let ghost cv = cur@;
    out.push(cur);
    assert(views(out@) =~= before + seq![cv]);
    out
}

/// The pieces joined with `sep` between them (`[&str]::join`).
pub open spec fn join(parts: Seq<Seq<char>>, sep: Seq<char>) -> Seq<char>
    decreases parts.len(),
{
    if parts.len() == 0 {
        seq![]
    } else if parts.len() == 1 {
        parts[0]
    } else {
        join(parts.drop_last(), sep) + sep + parts.last()
    }
}

/// The pieces of `parts` joined with the text `sep`.
pub fn join_chars(parts: &Vec<Vec<char>>, sep: &str) -> (r: String)
    ensures
        r@ == join(views(parts@), sep@),
{
    let mut s = String::new();
    let mut i: usize = 0;
    while i < parts.len()
        invariant
            i <= parts.len(),
            s@ == join(views(parts@).take(i as int), sep@),
        decreases parts.len() - i,
    {
        let ghost pre = views(parts@).take(i as int);
        let ghost next = views(parts@).take(i + 1);
        assert(next.drop_last() =~= pre);
        assert(next.last() == parts@[i as int]@);
        if i > 0 {
            push_str(&mut s, sep);
        } else {
            assert(s@ =~= seq![]);
        }
        push_chars(&mut s, parts[i].as_slice());
        assert(i == 0 ==> s@ =~= next[0]);
        i = i + 1;
    }
    assert(views(parts@).take(parts.len() as int) =~= views(parts@));
    s
}

/// `s` with every `from` replaced by `to` (`str::replace` for one char).
pub open spec fn replace_char(s: Seq<char>, from: char, to: char) -> Seq<char> {
    s.map_values(|c: char| if c == from { to } else { c })
}

/// `v` with every `from` replaced by `to`.
pub fn replace_chars(v: &[char], from: char, to: char) -> (r: Vec<char>)
    ensures
        r@ == replace_char(v@, from, to),
{
    let mut r: Vec<char> = Vec::new();
    let mut i: usize = 0;
    while i < v.len()
        invariant
            i <= v.len(),
            r@ == replace_char(v@.take(i as int), from, to),
        decreases v.len() - i,
    {
        let c = if v[i] == from { to } else { v[i] };
        r.push(c);
        i = i + 1;
        assert(r@ =~= replace_char(v@.take(i as int), from, to));
    }
    assert(v@.take(v.len() as int) =~= v@);
    r
}

// ───────────────────────────── numbers ─────────────────────────────

/// An ASCII decimal digit.
pub open spec fn is_digit(c: char) -> bool {
    '0' <= c && c <= '9'
}

/// An ASCII hexadecimal digit, either case.
pub open spec fn is_hex_digit(c: char) -> bool {
    ('0' <= c && c <= '9') || ('a' <= c && c <= 'f') || ('A' <= c && c <= 'F')
}

/// The value of a hexadecimal digit.
pub open spec fn hex_digit_value(c: char) -> nat {
    if '0' <= c && c <= '9' {
        (c as int - '0' as int) as nat
    } else if 'a' <= c && c <= 'f' {
        (c as int - 'a' as int + 10) as nat
    } else {
        (c as int - 'A' as int + 10) as nat
    }
}

/// The value of the digits `s` in base `radix`.
pub open spec fn digits_value(s: Seq<char>, radix: nat) -> nat
    decreases s.len(),
{
    if s.len() == 0 {
        0
    } else {
        digits_value(s.drop_last(), radix) * radix + hex_digit_value(s.last())
    }
}

/// All characters of `s` are digits of base `radix` (10 or 16).
pub open spec fn all_digits(s: Seq<char>, radix: nat) -> bool {
    forall|i: int|
        0 <= i < s.len() ==> if radix == 10 {
            is_digit(#[trigger] s[i])
        } else {
            is_hex_digit(s[i])
        }
}

/// The digits of an unsigned number text: one leading `+` is allowed.
pub open spec fn unsigned_digits(s: Seq<char>) -> Seq<char> {
    if s.len() > 0 && s[0] == '+' {
        s.drop_first()
    } else {
        s
    }
}

/// The unsigned number that `s` denotes in base `radix` when it is at most
/// `max` (`u64::from_str`, `u32::from_str_radix`): an optional `+`, then at
/// least one digit, nothing else.
pub open spec fn parse_unsigned(s: Seq<char>, radix: nat, max: nat) -> Option<nat> {
    let d = unsigned_digits(s);
    if d.len() > 0 && all_digits(d, radix) && digits_value(d, radix) <= max {
        Some(digits_value(d, radix))
    } else {
        None
    }
}

proof fn lemma_digits_value_prefix(s: Seq<char>, k: int, radix: nat)
    requires
        0 <= k <= s.len(),
        radix >= 1,
    ensures
        digits_value(s.take(k), radix) <= digits_value(s, radix),
    decreases s.len(),
{
    if k < s.len() {
        assert(s.drop_last().take(k) =~= s.take(k));
        lemma_digits_value_prefix(s.drop_last(), k, radix);
        let a = digits_value(s.drop_last(), radix);
        assert(a <= a * radix) by (nonlinear_arith)
            requires
                radix >= 1,
        ;
    } else {
        assert(s.take(k) =~= s);
    }
}

/// The value of a digit of base `radix` (10 or 16), if `c` is one.
fn digit_of(c: char, radix: u64) -> (r: Option<u64>)
    requires
        radix == 10 || radix == 16,
    ensures
        r is Some <==> (if radix == 10 { is_digit(c) } else { is_hex_digit(c) }),
        r matches Some(d) ==> d == hex_digit_value(c) && d < radix,
{
    if '0' <= c && c <= '9' {
        Some((c as u32 - '0' as u32) as u64)
    } else if radix == 16 && 'a' <= c && c <= 'f' {
        Some((c as u32 - 'a' as u32 + 10) as u64)
    } else if radix == 16 && 'A' <= c && c <= 'F' {
        Some((c as u32 - 'A' as u32 + 10) as u64)
    } else {
        None
    }
}

/// Parses an unsigned number of base `radix` (10 or 16) no larger than `max`.
pub fn parse_unsigned_chars(v: &[char], radix: u64, max: u64) -> (r: Option<u64>)
    requires
        radix == 10 || radix == 16,
    ensures
        r matches Some(x) ==> parse_unsigned(v@, radix as nat, max as nat) == Some(x as nat),
        r is None ==> parse_unsigned(v@, radix as nat, max as nat) is None,
{
    let start: usize = if v.len() > 0 && v[0] == '+' { 1 } else { 0 };
    let ghost d = unsigned_digits(v@);
    assert(d =~= v@.skip(start as int));
    if start >= v.len() {
        return None;
    }
    let mut acc: u64 = 0;
    let mut i: usize = start;
    while i < v.len()
        invariant
            start <= i <= v.len(),
            d == unsigned_digits(v@),
            d =~= v@.skip(start as int),
            radix == 10 || radix == 16,
            acc as nat == digits_value(d.take(i - start), radix as nat),
            acc <= max,
            all_digits(d.take(i - start), radix as nat),
        decreases v.len() - i,
    {
        let ghost pre = d.take(i - start);
        let ghost next = d.take(i + 1 - start);
        assert(next.drop_last() =~= pre);
        assert(next.last() == v@[i as int]);
        match digit_of(v[i], radix) {
            None => {
                assert(!all_digits(d, radix as nat)) by {
                    assert(d[i - start] == v@[i as int]);
                    assert(!(if radix == 10 {
                        is_digit(d[i - start])
                    } else {
                        is_hex_digit(d[i - start])
                    }));
                }
                return None;
            },
            Some(dv) => {
                let bigger = match acc.checked_mul(radix) {
                    Some(m) => m.checked_add(dv),
                    None => None,
                };
                match bigger {
                    Some(b) if b <= max => {
                        acc = b;
                        assert forall|k: int| 0 <= k < next.len() implies (if radix == 10 {
                            is_digit(#[trigger] next[k])
                        } else {
                            is_hex_digit(next[k])
                        }) by {
                            if k < pre.len() {
                                assert(next[k] == pre[k]);
                            }
                        }
                    },
                    _ => {
                        proof {
                            lemma_digits_value_prefix(d, i + 1 - start, radix as nat);
                            assert(digits_value(next, radix as nat) == acc * radix + dv);
                            assert(acc * radix + dv > max);
                        }
                        return None;
                    },
                }
            },
        }
        i = i + 1;
    }
    assert(d.take(v.len() - start) =~= d);
    Some(acc)
}

/// The decimal digit character of `d < 10`.
pub open spec fn digit_char(d: nat) -> char {
    ('0' as int + d) as char
}

/// The hexadecimal digit character of `d < 16`, upper or lower case.
pub open spec fn hex_char(d: nat, upper: bool) -> char {
    if d < 10 {
        ('0' as int + d) as char
    } else if upper {
        ('A' as int + d - 10) as char
    } else {
        ('a' as int + d - 10) as char
    }
}

/// The decimal text of `n` (`format!("{}", n)`).
pub open spec fn decimal(n: nat) -> Seq<char>
    decreases n,
{
    if n < 10 {
        seq![digit_char(n)]
    } else {
        decimal(n / 10).push(digit_char(n % 10))
    }
}

/// The last `w` hexadecimal digits of `n`, zero padded
/// (`format!("{:0w$X}", n)` for `n < 16^w`).
pub open spec fn hex_width(n: nat, w: nat, upper: bool) -> Seq<char>
    decreases w,
{
    if w == 0 {
        seq![]
    } else {
        hex_width(n / 16, (w - 1) as nat, upper).push(hex_char(n % 16, upper))
    }
}

/// Appends the decimal text of `n`.
pub fn push_decimal(s: &mut String, n: u64)
    ensures
        final(s)@ == old(s)@ + decimal(n as nat),
    decreases n,
{
    if n >= 10 {
        push_decimal(s, n / 10);
    }
    let d = (n % 10) as u8;
    let c = (48u8 + d) as char;
    push_char(s, c);
    assert(c == digit_char((n % 10) as nat));
}

/// Appends `w` hexadecimal digits of `n`, zero padded.
pub fn push_hex_width(s: &mut String, n: u64, w: u32, upper: bool)
    ensures
        final(s)@ == old(s)@ + hex_width(n as nat, w as nat, upper),
    decreases w,
{
    if w == 0 {
        return;
    }
    push_hex_width(s, n / 16, w - 1, upper);
    let d = (n % 16) as u8;
    let base: u8 = if d < 10 { 48 } else if upper { 55 } else { 87 };
    let c = (base + d) as char;
    push_char(s, c);
    assert(c == hex_char((n % 16) as nat, upper));
}

/// The view of an optional string.
pub open spec fn opt_view(o: Option<String>) -> Option<Seq<char>> {
    match o {
        Some(s) => Some(s@),
        None => None,
    }
}

/// `h` contains the text `lit` (shorthand for contracts).
pub open spec fn has(h: Seq<char>, lit: &str) -> bool {
    seq_contains(h, lit@)
}

/// The views of a sequence of strings.
pub open spec fn views_of_strings(v: Seq<String>) -> Seq<Seq<char>> {
    v.map_values(|x: String| x@)
}

/// The present values of a sequence of options, in order.
pub open spec fn somes(v: Seq<Option<Seq<char>>>) -> Seq<Seq<char>>
    decreases v.len(),
{
    if v.len() == 0 {
        seq![]
    } else {
        match v.last() {
            Some(x) => somes(v.drop_last()).push(x),
            None => somes(v.drop_last()),
        }
    }
}

/// Moves the value out of `slot` (the `i`-th of `all`) to the end of `out`.
pub(crate) fn take_into(
    slot: &mut Option<String>,
    out: &mut Vec<String>,
    Ghost(all): Ghost<Seq<Option<Seq<char>>>>,
    i: usize,
)
    requires
        i < all.len(),
        all[i as int] == opt_view(*old(slot)),
        views_of_strings(old(out)@) == somes(all.take(i as int)),
    ensures
        *final(slot) is None,
        views_of_strings(final(out)@) == somes(all.take(i + 1)),
{
    assert(all.take(i + 1).drop_last() =~= all.take(i as int));
    let ghost before = views_of_strings(out@);
    match slot.take() {
        Some(v) => {
            out.push(v);
            assert(views_of_strings(out@) =~= before.push(all[i as int]->0));
        },
        None => {},
    }
}

proof fn lemma_splitn_acc_nonempty(s: Seq<char>, sep: char, n: nat, cur: Seq<char>)
    ensures
        splitn_acc(s, sep, n, cur).len() >= 1,
    decreases s.len(),
{
    if s.len() > 0 {
        if n > 1 && s[0] == sep {
            lemma_splitn_acc_nonempty(s.drop_first(), sep, (n - 1) as nat, seq![]);
        } else {
            lemma_splitn_acc_nonempty(s.drop_first(), sep, n, cur.push(s[0]));
        }
    }
}

/// `splitn` with `n >= 1` gives at least one piece.
pub proof fn lemma_splitn_nonempty(s: Seq<char>, sep: char, n: nat)
    requires
        n >= 1,
    ensures
        splitn(s, sep, n).len() >= 1,
{
    lemma_splitn_acc_nonempty(s, sep, n, seq![]);
}

/// The first `n` bytes of `b`.
pub fn slice_bytes(b: &[u8], n: usize) -> (r: Vec<u8>)
    requires
        n <= b.len(),
    ensures
        r@ == b@.take(n as int),
{
    let mut r: Vec<u8> = Vec::new();
    let mut i: usize = 0;
    while i < n
        invariant
            i <= n <= b.len(),
            r@ == b@.take(i as int),
        decreases n - i,
    {
        r.push(b[i]);
        i = i + 1;
        assert(r@ =~= b@.take(i as int));
    }
    r
}

// ───────────────────────────── laws of the text operations ─────────────────────────────

/// The decimal text of `n` reads back as `n`.
pub proof fn lemma_decimal_digits(n: nat)
    ensures
        decimal(n).len() > 0,
        all_digits(decimal(n), 10),
        digits_value(decimal(n), 10) == n,
        is_digit(decimal(n)[0]),
    decreases n,
{
    let c = digit_char(n % 10);
    assert(('0' as int + n % 10) as char as int == '0' as int + n % 10);
    assert(hex_digit_value(c) == n % 10);
    if n < 10 {
        assert(decimal(n) =~= seq![c]);
        assert(decimal(n).drop_last() =~= Seq::<char>::empty());
        assert(digits_value(decimal(n), 10) == digits_value(Seq::<char>::empty(), 10) * 10 + hex_digit_value(c));
    } else {
        lemma_decimal_digits(n / 10);
        let d = decimal(n / 10);
        assert(decimal(n) == d.push(c));
        assert(decimal(n).drop_last() =~= d);
        assert(decimal(n)[0] == d[0]);
        assert(n == (n / 10) * 10 + n % 10);
        assert(digits_value(decimal(n), 10) == digits_value(d, 10) * 10 + hex_digit_value(c));
        assert forall|i: int| 0 <= i < decimal(n).len() implies is_digit(#[trigger] decimal(n)[i]) by {
            if i < d.len() {
                assert(decimal(n)[i] == d[i]);
            }
        }
    }
}

/// A decimal text parses back to its value.
pub proof fn lemma_parse_decimal(n: nat, max: nat)
    requires
        n <= max,
    ensures
        parse_unsigned(decimal(n), 10, max) == Some(n),
{
    lemma_decimal_digits(n);
    assert(unsigned_digits(decimal(n)) == decimal(n));
}

/// `16^w`.
pub open spec fn pow16(w: nat) -> nat
    decreases w,
{
    if w == 0 {
        1
    } else {
        16 * pow16((w - 1) as nat)
    }
}

/// The `w` hexadecimal digits of `n < 16^w` read back as `n`.
pub proof fn lemma_hex_width_digits(n: nat, w: nat, upper: bool)
    requires
        n < pow16(w),
    ensures
        hex_width(n, w, upper).len() == w,
        all_digits(hex_width(n, w, upper), 16),
        digits_value(hex_width(n, w, upper), 16) == n,
        forall|i: int| 0 <= i < w ==> #[trigger] hex_width(n, w, upper)[i] != 'x',
        forall|i: int| 0 <= i < w ==> #[trigger] hex_width(n, w, upper)[i] != 'X',
        forall|i: int| 0 <= i < w ==> !is_white(#[trigger] hex_width(n, w, upper)[i]),
    decreases w,
{
    if w == 0 {
        assert(n == 0);
    } else {
        let p = pow16((w - 1) as nat);
        assert(n / 16 < p) by (nonlinear_arith)
            requires
                n < 16 * p,
        ;
        lemma_hex_width_digits(n / 16, (w - 1) as nat, upper);
        let h = hex_width(n / 16, (w - 1) as nat, upper);
        let d = n % 16;
        let c = hex_char(d, upper);
        assert(hex_width(n, w, upper) == h.push(c));
        assert(hex_width(n, w, upper).drop_last() =~= h);
        if d < 10 {
            assert(('0' as int + d) as char as int == '0' as int + d);
        } else if upper {
            assert(('A' as int + d - 10) as char as int == 'A' as int + d - 10);
        } else {
            assert(('a' as int + d - 10) as char as int == 'a' as int + d - 10);
        }
        assert(hex_digit_value(c) == d);
        assert(is_hex_digit(c));
        assert(n == (n / 16) * 16 + n % 16);
        let hw = hex_width(n, w, upper);
        assert forall|i: int| 0 <= i < hw.len() implies is_hex_digit(#[trigger] hw[i]) && hw[i]
            != 'x' && hw[i] != 'X' && !is_white(hw[i]) by {
            if i < h.len() {
                assert(hw[i] == h[i]);
            }
        }
    }
}

/// `0x` followed by `w >= 1` hexadecimal digits, after `0x` prefixes are
/// removed, parses back to the value.
pub proof fn lemma_parse_prefixed_hex(n: nat, w: nat, upper: bool, max: nat)
    requires
        n < pow16(w),
        w >= 1,
        n <= max,
    ensures
        trim_start_matches("0x"@ + hex_width(n, w, upper), "0x"@) == hex_width(n, w, upper),
        parse_unsigned(trim_start_matches("0x"@ + hex_width(n, w, upper), "0x"@), 16, max) == Some(n),
{
    reveal_strlit("0x");
    lemma_hex_width_digits(n, w, upper);
    let h = hex_width(n, w, upper);
    let s = "0x"@ + h;
    assert(seq_starts_with(s, "0x"@)) by {
        assert(s.take(2) =~= "0x"@);
    }
    assert(s.skip(2) =~= h);
    assert(!seq_starts_with(h, "0x"@)) by {
        if h.len() >= 2 {
            assert(h[1] != 'x');
            assert(h.take(2)[1] == h[1]);
        }
    }
    assert(trim_start_matches(h, "0x"@) == h);
    assert(trim_start_matches(s, "0x"@) == trim_start_matches(s.skip(2), "0x"@));
    assert(h.len() > 0 && h[0] != '+') by {
        assert(is_hex_digit(h[0]));
    }
    assert(unsigned_digits(h) == h);
}

/// A text without white space is its own trim.
pub proof fn lemma_trim_no_white(s: Seq<char>)
    requires
        forall|i: int| 0 <= i < s.len() ==> !is_white(#[trigger] s[i]),
    ensures
        trim(s) == s,
{
    if s.len() > 0 {
        assert(!is_white(s[0]));
        assert(!is_white(s.last()));
    }
}

/// The lines of a text whose first line `x` ends at a newline.
pub proof fn lemma_lines_acc_newline(x: Seq<char>, y: Seq<char>, cur: Seq<char>)
    requires
        forall|i: int| 0 <= i < x.len() ==> #[trigger] x[i] != '\n',
    ensures
        lines_acc(x + seq!['\n'] + y, cur) == seq![strip_cr(cur + x)] + lines_acc(y, seq![]),
    decreases x.len(),
{
    let s = x + seq!['\n'] + y;
    if x.len() == 0 {
        assert(s[0] == '\n');
        assert(s.drop_first() =~= y);
        assert(cur + x =~= cur);
    } else {
        assert(s[0] == x[0]);
        assert(s.drop_first() =~= x.drop_first() + seq!['\n'] + y);
        assert forall|i: int| 0 <= i < x.drop_first().len() implies #[trigger] x.drop_first()[i]
            != '\n' by {
            assert(x.drop_first()[i] == x[i + 1]);
        }
        lemma_lines_acc_newline(x.drop_first(), y, cur.push(x[0]));
        assert(cur.push(x[0]) + x.drop_first() =~= cur + x);
    }
}

/// The lines of a last line `x` without newline.
pub proof fn lemma_lines_acc_last(x: Seq<char>, cur: Seq<char>)
    requires
        forall|i: int| 0 <= i < x.len() ==> #[trigger] x[i] != '\n',
        (cur + x).len() > 0,
    ensures
        lines_acc(x, cur) == seq![cur + x],
    decreases x.len(),
{
    if x.len() == 0 {
        assert(cur + x =~= cur);
    } else {
        assert forall|i: int| 0 <= i < x.drop_first().len() implies #[trigger] x.drop_first()[i]
            != '\n' by {
            assert(x.drop_first()[i] == x[i + 1]);
        }
        lemma_lines_acc_last(x.drop_first(), cur.push(x[0]));
        assert(cur.push(x[0]) + x.drop_first() =~= cur + x);
    }
}

/// A text without newlines.
pub open spec fn no_newline(t: Seq<char>) -> bool {
    forall|j: int| 0 <= j < t.len() ==> #[trigger] t[j] != '\n'
}

proof fn lemma_lines_acc_single(s: Seq<char>, cur: Seq<char>)
    requires
        no_newline(cur),
    ensures
        forall|k: int| 0 <= k < lines_acc(s, cur).len() ==> no_newline(#[trigger] lines_acc(s, cur)[k]),
    decreases s.len(),
{
    if s.len() == 0 {
        assert(lines_acc(s, cur) == (if cur.len() == 0 {
            Seq::<Seq<char>>::empty()
        } else {
            seq![cur]
        }));
    } else if s[0] == '\n' {
        lemma_lines_acc_single(s.drop_first(), seq![]);
        let first = strip_cr(cur);
        assert(lines_acc(s, cur) == seq![first] + lines_acc(s.drop_first(), seq![]));
        assert(no_newline(first)) by {
            assert forall|j: int| 0 <= j < first.len() implies #[trigger] first[j] != '\n' by {
                assert(first[j] == cur[j]);
            }
        }
        let rest = lines_acc(s.drop_first(), seq![]);
        assert forall|k: int| 0 <= k < lines_acc(s, cur).len() implies no_newline(
            #[trigger] lines_acc(s, cur)[k],
        ) by {
            if k > 0 {
                assert((seq![first] + rest)[k] == rest[k - 1]);
            }
        }
    } else {
        let next = cur.push(s[0]);
        assert(no_newline(next)) by {
            assert forall|j: int| 0 <= j < next.len() implies #[trigger] next[j] != '\n' by {
                if j < cur.len() {
                    assert(next[j] == cur[j]);
                }
            }
        }
        lemma_lines_acc_single(s.drop_first(), next);
        assert(lines_acc(s, cur) == lines_acc(s.drop_first(), next));
    }
}

proof fn lemma_lines_acc_ascii(s: Seq<char>, cur: Seq<char>)
    requires
        is_ascii_text(s),
        is_ascii_text(cur),
    ensures
        forall|k: int| 0 <= k < lines_acc(s, cur).len() ==> is_ascii_text(#[trigger] lines_acc(s, cur)[k]),
    decreases s.len(),
{
    let rest = s.drop_first();
    if s.len() > 0 {
        assert forall|i: int| 0 <= i < rest.len() implies (#[trigger] rest[i] as u32) < 0x80 by {
            assert(rest[i] == s[i + 1]);
        }
    }
    if s.len() == 0 {
        assert(lines_acc(s, cur) == (if cur.len() == 0 {
            Seq::<Seq<char>>::empty()
        } else {
            seq![cur]
        }));
    } else if s[0] == '\n' {
        lemma_lines_acc_ascii(rest, seq![]);
        let first = strip_cr(cur);
        assert(is_ascii_text(first)) by {
            assert forall|j: int| 0 <= j < first.len() implies (#[trigger] first[j] as u32) < 0x80 by {
                assert(first[j] == cur[j]);
            }
        }
        assert(lines_acc(s, cur) == seq![first] + lines_acc(rest, seq![]));
        assert forall|k: int| 0 <= k < lines_acc(s, cur).len() implies is_ascii_text(
            #[trigger] lines_acc(s, cur)[k],
        ) by {
            if k > 0 {
                assert((seq![first] + lines_acc(rest, seq![]))[k] == lines_acc(rest, seq![])[k - 1]);
            }
        }
    } else {
        let next = cur.push(s[0]);
        assert(is_ascii_text(next)) by {
            assert forall|j: int| 0 <= j < next.len() implies (#[trigger] next[j] as u32) < 0x80 by {
                if j < cur.len() {
                    assert(next[j] == cur[j]);
                } else {
                    assert(next[j] == s[0]);
                }
            }
        }
        lemma_lines_acc_ascii(rest, next);
        assert(lines_acc(s, cur) == lines_acc(rest, next));
    }
}

/// Every line of an ASCII text is ASCII.
pub proof fn lemma_lines_ascii(s: Seq<char>)
    requires
        is_ascii_text(s),
    ensures
        forall|k: int| 0 <= k < lines_of(s).len() ==> is_ascii_text(#[trigger] lines_of(s)[k]),
{
    lemma_lines_acc_ascii(s, seq![]);
}

/// No line of a text holds a newline.
pub proof fn lemma_lines_have_no_newline(s: Seq<char>)
    ensures
        forall|k: int| 0 <= k < lines_of(s).len() ==> no_newline(#[trigger] lines_of(s)[k]),
{
    lemma_lines_acc_single(s, seq![]);
}

/// The lines of a text that ends in a newline, followed by more text, are
/// the lines of each part.
pub proof fn lemma_lines_acc_concat(x: Seq<char>, y: Seq<char>, cur: Seq<char>)
    requires
        x.len() > 0,
        x.last() == '\n',
    ensures
        lines_acc(x + y, cur) == lines_acc(x, cur) + lines_acc(y, seq![]),
    decreases x.len(),
{
    let s = x + y;
    assert(s[0] == x[0]);
    assert(s.drop_first() =~= x.drop_first() + y);
    if x[0] == '\n' {
        if x.len() == 1 {
            assert(x.drop_first() =~= Seq::<char>::empty());
            assert(s.drop_first() =~= y);
            assert(lines_acc(x.drop_first(), seq![]) =~= Seq::<Seq<char>>::empty());
            assert(lines_acc(x, cur) =~= seq![strip_cr(cur)]);
        } else {
            assert(x.drop_first().last() == x.last());
            lemma_lines_acc_concat(x.drop_first(), y, seq![]);
            assert(lines_acc(s, cur) =~= lines_acc(x, cur) + lines_acc(y, seq![]));
        }
    } else {
        assert(x.len() > 1);
        assert(x.drop_first().last() == x.last());
        lemma_lines_acc_concat(x.drop_first(), y, cur.push(x[0]));
    }
}

/// ASCII case changes stay ASCII, and lower- or upper-casing forgets any
/// earlier ASCII case change.
pub proof fn lemma_ascii_case_folds(s: Seq<char>)
    requires
        is_ascii_text(s),
    ensures
        is_ascii_text(ascii_lower(s)),
        is_ascii_text(ascii_upper(s)),
        ascii_lower(ascii_upper(s)) == ascii_lower(s),
        ascii_lower(ascii_lower(s)) == ascii_lower(s),
        ascii_upper(ascii_lower(s)) == ascii_upper(s),
        ascii_upper(ascii_upper(s)) == ascii_upper(s),
{
    assert forall|i: int| 0 <= i < s.len() implies {
        let c = #[trigger] s[i];
        &&& (ascii_lower_char(c) as u32) < 0x80
        &&& (ascii_upper_char(c) as u32) < 0x80
        &&& ascii_lower_char(ascii_upper_char(c)) == ascii_lower_char(c)
        &&& ascii_lower_char(ascii_lower_char(c)) == ascii_lower_char(c)
        &&& ascii_upper_char(ascii_lower_char(c)) == ascii_upper_char(c)
        &&& ascii_upper_char(ascii_upper_char(c)) == ascii_upper_char(c)
    } by {
        let c = s[i];
        assert((c as u32) < 0x80);
    }
    assert(ascii_lower(ascii_upper(s)) =~= ascii_lower(s));
    assert(ascii_lower(ascii_lower(s)) =~= ascii_lower(s));
    assert(ascii_upper(ascii_lower(s)) =~= ascii_upper(s));
    assert(ascii_upper(ascii_upper(s)) =~= ascii_upper(s));
}

/// Splitting `x`, a separator and `y`, where `x` holds no separator.
pub proof fn lemma_splitn_acc_sep(x: Seq<char>, sep: char, y: Seq<char>, n: nat, cur: Seq<char>)
    requires
        n > 1,
        forall|i: int| 0 <= i < x.len() ==> #[trigger] x[i] != sep,
    ensures
        splitn_acc(x + seq![sep] + y, sep, n, cur) == seq![cur + x] + splitn_acc(
            y,
            sep,
            (n - 1) as nat,
            seq![],
        ),
    decreases x.len(),
{
    let s = x + seq![sep] + y;
    if x.len() == 0 {
        assert(s[0] == sep);
        assert(s.drop_first() =~= y);
        assert(cur + x =~= cur);
    } else {
        assert(s[0] == x[0]);
        assert(s.drop_first() =~= x.drop_first() + seq![sep] + y);
        assert forall|i: int| 0 <= i < x.drop_first().len() implies #[trigger] x.drop_first()[i]
            != sep by {
            assert(x.drop_first()[i] == x[i + 1]);
        }
        lemma_splitn_acc_sep(x.drop_first(), sep, y, n, cur.push(x[0]));
        assert(cur.push(x[0]) + x.drop_first() =~= cur + x);
    }
}

/// Splitting a last piece `x` without separator.
pub proof fn lemma_splitn_acc_last(x: Seq<char>, sep: char, n: nat, cur: Seq<char>)
    requires
        forall|i: int| 0 <= i < x.len() ==> #[trigger] x[i] != sep,
    ensures
        splitn_acc(x, sep, n, cur) == seq![cur + x],
    decreases x.len(),
{
    if x.len() == 0 {
        assert(cur + x =~= cur);
    } else {
        assert forall|i: int| 0 <= i < x.drop_first().len() implies #[trigger] x.drop_first()[i]
            != sep by {
            assert(x.drop_first()[i] == x[i + 1]);
        }
        lemma_splitn_acc_last(x.drop_first(), sep, n, cur.push(x[0]));
        assert(cur.push(x[0]) + x.drop_first() =~= cur + x);
    }
}

} // verus!
