//! Text as UTF-8 bytes: trimming, case folding and field splitting.
use vstd::prelude::*;

verus! {

/// Whitespace removed around a whole colour value: space, tab, line feed, carriage return.
/// With `wide`, also vertical tab and form feed (the ASCII part of Unicode `White_Space`).
pub open spec fn is_blank(b: u8, wide: bool) -> bool {
    b == 32 || b == 9 || b == 10 || b == 13 || (wide && (b == 11 || b == 12))
}

/// The UTF-8 encoding, two or three bytes long, of a Unicode `White_Space` character
/// outside ASCII: U+0085, U+00A0, U+1680, U+2000 to U+200A, U+2028, U+2029, U+202F,
/// U+205F and U+3000.
pub open spec fn wide_space(c: Seq<u8>) -> bool {
    ||| c.len() == 2 && c[0] == 0xC2 && (c[1] == 0x85 || c[1] == 0xA0)
    ||| c.len() == 3 && c[0] == 0xE1 && c[1] == 0x9A && c[2] == 0x80
    ||| c.len() == 3 && c[0] == 0xE2 && c[1] == 0x80 && (0x80 <= c[2] <= 0x8A || c[2] == 0xA8
        || c[2] == 0xA9 || c[2] == 0xAF)
    ||| c.len() == 3 && c[0] == 0xE2 && c[1] == 0x81 && c[2] == 0x9F
    ||| c.len() == 3 && c[0] == 0xE3 && c[1] == 0x80 && c[2] == 0x80
}

/// The length of the blank character that `s` starts with, or 0. Without `wide` the
/// blanks are the four bytes of `is_blank`; with it, every Unicode `White_Space` character.
pub open spec fn blank_len_start(s: Seq<u8>, wide: bool) -> nat {
    if s.len() >= 1 && is_blank(s[0], wide) {
        1
    } else if wide && s.len() >= 2 && wide_space(s.take(2)) {
        2
    } else if wide && s.len() >= 3 && wide_space(s.take(3)) {
        3
    } else {
        0
    }
}

/// The length of the blank character that `s` ends with, or 0 (see `blank_len_start`).
pub open spec fn blank_len_end(s: Seq<u8>, wide: bool) -> nat {
    if s.len() >= 1 && is_blank(s.last(), wide) {
        1
    } else if wide && s.len() >= 2 && wide_space(s.skip(s.len() - 2)) {
        2
    } else if wide && s.len() >= 3 && wide_space(s.skip(s.len() - 3)) {
        3
    } else {
        0
    }
}

/// `s` without its leading blanks.
pub open spec fn trim_start(s: Seq<u8>, wide: bool) -> Seq<u8>
    decreases s.len(),
{
    let n = blank_len_start(s, wide);
    if n > 0 {
        trim_start(s.skip(n as int), wide)
    } else {
        s
    }
}

/// `s` without its trailing blanks.
pub open spec fn trim_end(s: Seq<u8>, wide: bool) -> Seq<u8>
    decreases s.len(),
{
    let n = blank_len_end(s, wide);
    if n > 0 {
        trim_end(s.take(s.len() - n), wide)
    } else {
        s
    }
}

/// `s` without its leading and trailing blanks.
pub open spec fn trim(s: Seq<u8>, wide: bool) -> Seq<u8> {
    trim_end(trim_start(s, wide), wide)
}

/// What `trim_end` leaves is a prefix that does not end in a blank.
pub proof fn lemma_trim_end(s: Seq<u8>, wide: bool)
    ensures
        trim_end(s, wide).len() <= s.len(),
        trim_end(s, wide) == s.take(trim_end(s, wide).len() as int),
        blank_len_end(trim_end(s, wide), wide) == 0,
    decreases s.len(),
{
    let n = blank_len_end(s, wide);
    if n > 0 {
        let t = s.take(s.len() - n);
        lemma_trim_end(t, wide);
        assert(t.take(trim_end(t, wide).len() as int) =~= s.take(trim_end(t, wide).len() as int));
    } else {
        assert(s.take(s.len() as int) =~= s);
    }
}

/// What `trim_start` leaves does not start with a blank.
pub proof fn lemma_trim_start(s: Seq<u8>, wide: bool)
    ensures
        blank_len_start(trim_start(s, wide), wide) == 0,
    decreases s.len(),
{
    let n = blank_len_start(s, wide);
    if n > 0 {
        lemma_trim_start(s.skip(n as int), wide);
    }
}

/// A prefix of a text that does not start with a blank does not start with one either.
proof fn lemma_prefix_no_blank(s: Seq<u8>, m: int, wide: bool)
    requires
        0 <= m <= s.len(),
        blank_len_start(s, wide) == 0,
    ensures
        blank_len_start(s.take(m), wide) == 0,
{
    let p = s.take(m);
    if p.len() >= 2 {
        assert(p.take(2) =~= s.take(2));
    }
    if p.len() >= 3 {
        assert(p.take(3) =~= s.take(3));
    }
}

/// Trimming twice is trimming once.
pub proof fn lemma_trim_idempotent(s: Seq<u8>, wide: bool)
    ensures
        trim(trim(s, wide), wide) == trim(s, wide),
{
    let x = trim_start(s, wide);
    let y = trim_end(x, wide);
    lemma_trim_start(s, wide);
    lemma_trim_end(x, wide);
    lemma_prefix_no_blank(x, y.len() as int, wide);
    assert(trim_start(y, wide) == y);
    assert(trim_end(y, wide) == y);
}

/// Every byte with bit `0x20` set: lower case for ASCII letters.
pub open spec fn lower_all(s: Seq<u8>) -> Seq<u8> {
    s.map_values(|b: u8| b | 0x20)
}

/// The characters whose code points are the given bytes.
pub open spec fn bytes_text(s: Seq<u8>) -> Seq<char> {
    s.map_values(|b: u8| b as char)
}

/// ASCII lower case of one byte (only `A`..=`Z` change).
pub open spec fn fold(b: u8) -> u8 {
    if 65 <= b <= 90 {
        (b + 32) as u8
    } else {
        b
    }
}

/// Equality up to ASCII case.
pub open spec fn eq_fold(a: Seq<u8>, b: Seq<u8>) -> bool {
    a.len() == b.len() && forall|i: int| 0 <= i < a.len() ==> fold(#[trigger] a[i]) == fold(b[i])
}

/// `s` ends with `suffix`, up to ASCII case.
pub open spec fn ends_with_fold(s: Seq<u8>, suffix: Seq<u8>) -> bool {
    s.len() >= suffix.len() && eq_fold(s.subrange(s.len() - suffix.len(), s.len() as int), suffix)
}

/// `s` ends with `suffix`, byte for byte.
pub open spec fn ends_with(s: Seq<u8>, suffix: Seq<u8>) -> bool {
    s.len() >= suffix.len() && s.subrange(s.len() - suffix.len(), s.len() as int) == suffix
}

/// `s` starts with `prefix`, byte for byte.
pub open spec fn starts_with(s: Seq<u8>, prefix: Seq<u8>) -> bool {
    s.len() >= prefix.len() && s.subrange(0, prefix.len() as int) == prefix
}

/// Field separators: space and comma, and with `tabs` also the tab.
pub open spec fn is_field_sep(b: u8, tabs: bool) -> bool {
    b == 32 || b == 44 || (tabs && b == 9)
}

/// Reading `s` from the left: the fields already closed and the field being read.
pub open spec fn field_scan(s: Seq<u8>, tabs: bool) -> (Seq<Seq<u8>>, Seq<u8>)
    decreases s.len(),
{
    if s.len() == 0 {
        (seq![], seq![])
    } else {
        let (done, cur) = field_scan(s.drop_last(), tabs);
        if is_field_sep(s.last(), tabs) {
            if cur.len() > 0 {
                (done.push(cur), seq![])
            } else {
                (done, seq![])
            }
        } else {
            (done, cur.push(s.last()))
        }
    }
}

/// The maximal non-empty runs of non-separator bytes of `s`, in order.
pub open spec fn fields(s: Seq<u8>, tabs: bool) -> Seq<Seq<u8>> {
    let (done, cur) = field_scan(s, tabs);
    if cur.len() > 0 {
        done.push(cur)
    } else {
        done
    }
}

/// Every byte lower-cased (only `A`..=`Z` change).
pub open spec fn fold_all(s: Seq<u8>) -> Seq<u8> {
    s.map_values(|b: u8| fold(b))
}

/// Lower-casing commutes with cutting a text.
pub proof fn lemma_fold_all_cut(s: Seq<u8>, i: int, j: int)
    requires
        0 <= i <= j <= s.len(),
    ensures
        fold_all(s).subrange(i, j) == fold_all(s.subrange(i, j)),
        fold_all(s).take(i) == fold_all(s.take(i)),
        fold_all(s).skip(i) == fold_all(s.skip(i)),
{
    assert(fold_all(s).subrange(i, j) =~= fold_all(s.subrange(i, j)));
    assert(fold_all(s).take(i) =~= fold_all(s.take(i)));
    assert(fold_all(s).skip(i) =~= fold_all(s.skip(i)));
}

proof fn lemma_fold_blank_len(s: Seq<u8>, wide: bool)
    ensures
        blank_len_start(fold_all(s), wide) == blank_len_start(s, wide),
        blank_len_end(fold_all(s), wide) == blank_len_end(s, wide),
{
    let f = fold_all(s);
    if s.len() >= 2 {
        lemma_fold_all_cut(s, 2, 2);
        lemma_fold_all_cut(s, s.len() - 2, s.len() - 2);
    }
    if s.len() >= 3 {
        lemma_fold_all_cut(s, 3, 3);
        lemma_fold_all_cut(s, s.len() - 3, s.len() - 3);
    }
}

/// Lower-casing commutes with trimming: blanks are no letters.
pub proof fn lemma_fold_trim(s: Seq<u8>, wide: bool)
    ensures
        trim(fold_all(s), wide) == fold_all(trim(s, wide)),
{
    lemma_fold_trim_start(s, wide);
    lemma_fold_trim_end(trim_start(s, wide), wide);
}

proof fn lemma_fold_trim_start(s: Seq<u8>, wide: bool)
    ensures
        trim_start(fold_all(s), wide) == fold_all(trim_start(s, wide)),
    decreases s.len(),
{
    lemma_fold_blank_len(s, wide);
    let n = blank_len_start(s, wide);
    if n > 0 {
        lemma_fold_all_cut(s, n as int, n as int);
        lemma_fold_trim_start(s.skip(n as int), wide);
    }
}

proof fn lemma_fold_trim_end(s: Seq<u8>, wide: bool)
    ensures
        trim_end(fold_all(s), wide) == fold_all(trim_end(s, wide)),
    decreases s.len(),
{
    lemma_fold_blank_len(s, wide);
    let n = blank_len_end(s, wide);
    if n > 0 {
        lemma_fold_all_cut(s, s.len() - n, s.len() - n);
        lemma_fold_trim_end(s.take(s.len() - n), wide);
    }
}

/// Setting bit `0x20` after lower-casing is setting it at once.
pub proof fn lemma_fold_lower(s: Seq<u8>)
    ensures
        lower_all(fold_all(s)) == lower_all(s),
{
    assert forall|b: u8| #![trigger fold(b)] (fold(b) | 0x20) == (b | 0x20) by {
        if 65 <= b <= 90 {
            assert(((b + 32) as u8 | 0x20) == (b | 0x20)) by (bit_vector)
                requires
                    65 <= b <= 90,
            ;
        }
    }
    assert(lower_all(fold_all(s)) =~= lower_all(s));
}

/// Comparing up to case does not see lower-casing.
pub proof fn lemma_fold_eq_fold(a: Seq<u8>, w: Seq<u8>)
    ensures
        eq_fold(fold_all(a), w) == eq_fold(a, w),
{
    if a.len() == w.len() {
        if eq_fold(a, w) {
            assert forall|i: int| 0 <= i < a.len() implies fold(#[trigger] fold_all(a)[i]) == fold(
                w[i],
            ) by {
                assert(fold(a[i]) == fold(w[i]));
            }
        }
        if eq_fold(fold_all(a), w) {
            assert forall|i: int| 0 <= i < a.len() implies fold(#[trigger] a[i]) == fold(w[i]) by {
                assert(fold(fold_all(a)[i]) == fold(w[i]));
            }
        }
    }
}

/// The lower-cased fields of a text are the fields of the lower-cased text.
pub proof fn lemma_fold_fields(s: Seq<u8>, tabs: bool)
    ensures
        fields(fold_all(s), tabs) == fields(s, tabs).map_values(|f: Seq<u8>| fold_all(f)),
{
    lemma_fold_field_scan(s, tabs);
    let (done, cur) = field_scan(s, tabs);
    assert(done.push(cur).map_values(|f: Seq<u8>| fold_all(f)) =~= done.map_values(
        |f: Seq<u8>| fold_all(f),
    ).push(fold_all(cur)));
}

proof fn lemma_fold_field_scan(s: Seq<u8>, tabs: bool)
    ensures
        field_scan(fold_all(s), tabs).0 == field_scan(s, tabs).0.map_values(
            |f: Seq<u8>| fold_all(f),
        ),
        field_scan(fold_all(s), tabs).1 == fold_all(field_scan(s, tabs).1),
    decreases s.len(),
{
    if s.len() == 0 {
        assert(field_scan(s, tabs).0.map_values(|f: Seq<u8>| fold_all(f)) =~= seq![]);
        assert(fold_all(field_scan(s, tabs).1) =~= seq![]);
    } else {
        let p = s.drop_last();
        lemma_fold_field_scan(p, tabs);
        assert(fold_all(s).drop_last() =~= fold_all(p));
        let (done, cur) = field_scan(p, tabs);
        assert(done.push(cur).map_values(|f: Seq<u8>| fold_all(f)) =~= done.map_values(
            |f: Seq<u8>| fold_all(f),
        ).push(fold_all(cur)));
        assert(fold_all(cur.push(s.last())) =~= fold_all(cur).push(fold(s.last())));
        assert(fold_all(seq![]) =~= seq![]);
    }
}

/// `b` is a blank (see `is_blank`).
pub fn is_blank_exec(b: u8, wide: bool) -> (r: bool)
    ensures
        r == is_blank(b, wide),
{
    b == 32 || b == 9 || b == 10 || b == 13 || (wide && (b == 11 || b == 12))
}

/// Whether the two or three bytes `x`, `y` (and `z`) encode a `wide_space` character.
fn wide_space_exec(x: u8, y: u8, z: Option<u8>) -> (r: bool)
    ensures
        r == wide_space(
            match z {
                Some(z) => seq![x, y, z],
                None => seq![x, y],
            },
        ),
{
    match z {
        None => x == 0xC2 && (y == 0x85 || y == 0xA0),
        Some(z) => (x == 0xE1 && y == 0x9A && z == 0x80) || (x == 0xE2 && y == 0x80 && ((0x80
            <= z && z <= 0x8A) || z == 0xA8 || z == 0xA9 || z == 0xAF)) || (x == 0xE2 && y == 0x81
            && z == 0x9F) || (x == 0xE3 && y == 0x80 && z == 0x80),
    }
}

/// The length of the blank that `s[lo..hi]` starts with (see `blank_len_start`).
fn blank_at_start(s: &[u8], lo: usize, hi: usize, wide: bool) -> (n: usize)
    requires
        lo <= hi <= s@.len(),
    ensures
        n == blank_len_start(s@.subrange(lo as int, hi as int), wide),
{
    let ghost t = s@.subrange(lo as int, hi as int);
    let len = hi - lo;
    if len >= 1 && is_blank_exec(s[lo], wide) {
        return 1;
    }
    if wide && len >= 2 && wide_space_exec(s[lo], s[lo + 1], None) {
        assert(t.take(2) =~= seq![s@[lo as int], s@[lo + 1]]);
        return 2;
    }
    assert(len >= 2 ==> t.take(2) =~= seq![s@[lo as int], s@[lo + 1]]);
    if wide && len >= 3 && wide_space_exec(s[lo], s[lo + 1], Some(s[lo + 2])) {
        assert(t.take(3) =~= seq![s@[lo as int], s@[lo + 1], s@[lo + 2]]);
        return 3;
    }
    assert(len >= 3 ==> t.take(3) =~= seq![s@[lo as int], s@[lo + 1], s@[lo + 2]]);
    0
}

/// The length of the blank that `s[lo..hi]` ends with (see `blank_len_end`).
fn blank_at_end(s: &[u8], lo: usize, hi: usize, wide: bool) -> (n: usize)
    requires
        lo <= hi <= s@.len(),
    ensures
        n == blank_len_end(s@.subrange(lo as int, hi as int), wide),
{
    let ghost t = s@.subrange(lo as int, hi as int);
    let len = hi - lo;
    if len >= 1 && is_blank_exec(s[hi - 1], wide) {
        return 1;
    }
    if wide && len >= 2 && wide_space_exec(s[hi - 2], s[hi - 1], None) {
        assert(t.skip(t.len() - 2) =~= seq![s@[hi - 2], s@[hi - 1]]);
        return 2;
    }
    assert(len >= 2 ==> t.skip(t.len() - 2) =~= seq![s@[hi - 2], s@[hi - 1]]);
    if wide && len >= 3 && wide_space_exec(s[hi - 3], s[hi - 2], Some(s[hi - 1])) {
        assert(t.skip(t.len() - 3) =~= seq![s@[hi - 3], s@[hi - 2], s@[hi - 1]]);
        return 3;
    }
    assert(len >= 3 ==> t.skip(t.len() - 3) =~= seq![s@[hi - 3], s@[hi - 2], s@[hi - 1]]);
    0
}

/// `b` in lower case (see `fold`).
pub fn fold_exec(b: u8) -> (r: u8)
    ensures
        r == fold(b),
{
    if 65 <= b && b <= 90 {
        b + 32
    } else {
        b
    }
}

/// The bounds of `s[lo..hi]` with its blanks trimmed.
pub fn trim_bounds(s: &[u8], lo: usize, hi: usize, wide: bool) -> (r: (usize, usize))
    requires
        lo <= hi <= s@.len(),
    ensures
        lo <= r.0 <= r.1 <= hi,
        s@.subrange(r.0 as int, r.1 as int) == trim(s@.subrange(lo as int, hi as int), wide),
{
    let ghost whole = s@.subrange(lo as int, hi as int);
    let mut a = lo;
    let mut n = blank_at_start(s, a, hi, wide);
    while n > 0
        invariant
            lo <= a <= hi <= s@.len(),
            whole == s@.subrange(lo as int, hi as int),
            n == blank_len_start(s@.subrange(a as int, hi as int), wide),
            trim_start(whole, wide) == trim_start(s@.subrange(a as int, hi as int), wide),
        decreases hi - a,
    {
        assert(s@.subrange(a as int, hi as int).skip(n as int) =~= s@.subrange(a + n, hi as int));
        a = a + n;
        n = blank_at_start(s, a, hi, wide);
    }
    let mut z = hi;
    let mut m = blank_at_end(s, a, z, wide);
    while m > 0
        invariant
            lo <= a <= z <= hi <= s@.len(),
            m == blank_len_end(s@.subrange(a as int, z as int), wide),
            trim_end(s@.subrange(a as int, hi as int), wide) == trim_end(
                s@.subrange(a as int, z as int),
                wide,
            ),
        decreases z - a,
    {
        assert(s@.subrange(a as int, z as int).take(z - a - m) =~= s@.subrange(a as int, z - m));
        z = z - m;
        m = blank_at_end(s, a, z, wide);
    }
    (a, z)
}

/// `s[lo..hi]` equals `pat` up to ASCII case.
pub fn eq_fold_exec(s: &[u8], lo: usize, hi: usize, pat: &[u8]) -> (r: bool)
    requires
        lo <= hi <= s@.len(),
    ensures
        r == eq_fold(s@.subrange(lo as int, hi as int), pat@),
{
    if hi - lo != pat.len() {
        return false;
    }
    let mut i: usize = 0;
    while i < pat.len()
        invariant
            lo <= hi <= s@.len(),
            hi - lo == pat@.len(),
            i <= pat@.len(),
            forall|j: int| 0 <= j < i ==> fold(s@[lo + j]) == fold(pat@[j]),
        decreases pat.len() - i,
    {
        if fold_exec(s[lo + i]) != fold_exec(pat[i]) {
            assert(fold(s@.subrange(lo as int, hi as int)[i as int]) != fold(pat@[i as int]));
            return false;
        }
        i = i + 1;
    }
    true
}

/// `s[lo..hi]` ends with `pat` up to ASCII case.
pub fn ends_with_fold_exec(s: &[u8], lo: usize, hi: usize, pat: &[u8]) -> (r: bool)
    requires
        lo <= hi <= s@.len(),
    ensures
        r == ends_with_fold(s@.subrange(lo as int, hi as int), pat@),
{
    if hi - lo < pat.len() {
        return false;
    }
    let r = eq_fold_exec(s, hi - pat.len(), hi, pat);
    assert(s@.subrange(lo as int, hi as int).subrange(hi - lo - pat@.len(), hi - lo)
        =~= s@.subrange(hi - pat@.len(), hi as int));
    r
}

/// `s[lo..hi]` equals `pat` byte for byte.
pub fn eq_bytes_exec(s: &[u8], lo: usize, hi: usize, pat: &[u8]) -> (r: bool)
    requires
        lo <= hi <= s@.len(),
    ensures
        r == (s@.subrange(lo as int, hi as int) == pat@),
{
    if hi - lo != pat.len() {
        return false;
    }
    let mut i: usize = 0;
    while i < pat.len()
        invariant
            lo <= hi <= s@.len(),
            hi - lo == pat@.len(),
            i <= pat@.len(),
            forall|j: int| 0 <= j < i ==> s@[lo + j] == pat@[j],
        decreases pat.len() - i,
    {
        if s[lo + i] != pat[i] {
            assert(s@.subrange(lo as int, hi as int)[i as int] != pat@[i as int]);
            return false;
        }
        i = i + 1;
    }
    assert(s@.subrange(lo as int, hi as int) =~= pat@);
    true
}

/// The bounds of the fields of `s[lo..hi]` (see `fields`).
pub fn field_bounds(s: &[u8], lo: usize, hi: usize, tabs: bool) -> (r: Vec<(usize, usize)>)
    requires
        lo <= hi <= s@.len(),
    ensures
        r@.len() == fields(s@.subrange(lo as int, hi as int), tabs).len(),
        forall|j: int|
            0 <= j < r@.len() ==> {
                &&& lo <= (#[trigger] r@[j]).0 < r@[j].1 <= hi
                &&& s@.subrange(r@[j].0 as int, r@[j].1 as int) == fields(
                    s@.subrange(lo as int, hi as int),
                    tabs,
                )[j]
            },
{
    let mut out: Vec<(usize, usize)> = Vec::new();
    let mut start = lo;
    let mut idx = lo;
    while idx < hi
        invariant
            lo <= start <= idx <= hi <= s@.len(),
            field_scan(s@.subrange(lo as int, idx as int), tabs).1 == s@.subrange(
                start as int,
                idx as int,
            ),
            out@.len() == field_scan(s@.subrange(lo as int, idx as int), tabs).0.len(),
            forall|j: int|
                0 <= j < out@.len() ==> {
                    &&& lo <= (#[trigger] out@[j]).0 < out@[j].1 <= idx
                    &&& s@.subrange(out@[j].0 as int, out@[j].1 as int) == field_scan(
                        s@.subrange(lo as int, idx as int),
                        tabs,
                    ).0[j]
                },
        decreases hi - idx,
    {
        let ghost prev = field_scan(s@.subrange(lo as int, idx as int), tabs);
        assert(s@.subrange(lo as int, idx + 1).drop_last() =~= s@.subrange(lo as int, idx as int));
        let b = s[idx];
        if b == 32 || b == 44 || (tabs && b == 9) {
            if idx > start {
                out.push((start, idx));
            }
            start = idx + 1;
        } else {
            assert(s@.subrange(start as int, idx + 1) =~= prev.1.push(b));
        }
        idx = idx + 1;
    }
    if idx > start {
        out.push((start, idx));
    }
    out
}

} // verus!
