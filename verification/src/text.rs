//! Character-level string building blocks shared by the rest of the library.
//!
//! Strings are modelled by their view, the sequence of their `char`s.

use vstd::prelude::*;
use vstd::std_specs::iter::IteratorSpec;

verus! {

broadcast use vstd::string::group_string_axioms;

/// Appends one character to a `String` (std's `String::push`).
/// Trusted: the result is the old contents followed by `c`, as std documents.
#[verifier::external_body]
pub(crate) fn push_char(s: &mut String, c: char)
    ensures
        final(s)@ == old(s)@.push(c),
{
    s.push(c);
}

/// Appends every character of `s` to `out`.
pub fn push_str(out: &mut String, s: &str)
    ensures
        final(out)@ == old(out)@ + s@,
{
    let ghost start = out@;
    for c in it: s.chars()
        invariant
            it.seq() == s@,
            out@ == start + it.seq().take(it.index() as int),
    {
        push_char(out, c);
        assert(out@ =~= start + it.seq().take(it.index() + 1));
    }
    assert(s@.take(s@.len() as int) =~= s@);
}

/// An owned copy of `s`.
pub fn owned(s: &str) -> (res: String)
    ensures
        res@ == s@,
{
    let mut res = String::new();
    push_str(&mut res, s);
    assert(res@ =~= s@);
    res
}

/// Whether two strings hold the same characters.
pub fn str_equals(a: &str, b: &str) -> (r: bool)
    ensures
        r == (a@ == b@),
{
    let av = chars_of(a);
    let bv = chars_of(b);
    if av.len() != bv.len() {
        return false;
    }
    let mut i: usize = 0;
    while i < av.len()
        invariant
            av@ == a@,
            bv@ == b@,
            av.len() == bv.len(),
            i <= av.len(),
            forall|j: int| 0 <= j < i ==> a@[j] == b@[j],
        decreases av.len() - i,
    {
        if av[i] != bv[i] {
            return false;
        }
        i = i + 1;
    }
    assert(a@ =~= b@);
    true
}

/// The characters of `s`, in order.
pub fn chars_of(s: &str) -> (v: Vec<char>)
    ensures
        v@ == s@,
{
    let mut v: Vec<char> = Vec::new();
    for c in it: s.chars()
        invariant
            it.seq() == s@,
            v@ == it.seq().take(it.index() as int),
    {
        v.push(c);
        assert(v@ =~= it.seq().take(it.index() + 1));
    }
    assert(s@.take(s@.len() as int) =~= s@);
    v
}

/// The string made of `v[lo..hi]`.
pub fn string_of_range(v: &Vec<char>, lo: usize, hi: usize) -> (s: String)
    requires
        lo <= hi <= v.len(),
    ensures
        s@ == v@.subrange(lo as int, hi as int),
{
    let mut s = String::new();
    let mut i = lo;
    while i < hi
        invariant
            lo <= i <= hi <= v.len(),
            s@ == v@.subrange(lo as int, i as int),
        decreases hi - i,
    {
        push_char(&mut s, v[i]);
        i = i + 1;
        assert(s@ =~= v@.subrange(lo as int, i as int));
    }
    s
}

/// Splits `s` at every occurrence of `sep`, scanning from the left; `sep` is never empty.
/// `n` occurrences give `n + 1` pieces, as `str::split` does.
pub open spec fn split_on(s: Seq<char>, sep: Seq<char>) -> Seq<Seq<char>>
    decreases s.len(),
{
    if s.len() < sep.len() || sep.len() == 0 {
        seq![s]
    } else if s.take(sep.len() as int) == sep {
        seq![Seq::<char>::empty()] + split_on(s.skip(sep.len() as int), sep)
    } else {
        let rest = split_on(s.drop_first(), sep);
        rest.update(0, seq![s[0]] + rest[0])
    }
}

/// `pieces` with `prefix` glued to the front of its first piece.
pub open spec fn glue_first(prefix: Seq<char>, pieces: Seq<Seq<char>>) -> Seq<Seq<char>> {
    pieces.update(0, prefix + pieces[0])
}

proof fn lemma_split_on_nonempty(s: Seq<char>, sep: Seq<char>)
    ensures
        split_on(s, sep).len() >= 1,
    decreases s.len(),
{
    if s.len() >= sep.len() && sep.len() > 0 {
        if s.take(sep.len() as int) == sep {
            lemma_split_on_nonempty(s.skip(sep.len() as int), sep);
        } else {
            lemma_split_on_nonempty(s.drop_first(), sep);
        }
    }
}

/// Whether `v[i..i + sep.len()]` equals `sep`.
fn matches_at(v: &Vec<char>, i: usize, sep: &Vec<char>) -> (r: bool)
    requires
        i <= v.len(),
    ensures
        r == (i + sep.len() <= v.len() && v@.subrange(i as int, i + sep.len()) == sep@),
{
    if sep.len() > v.len() - i {
        return false;
    }
    let mut j: usize = 0;
    while j < sep.len()
        invariant
            i + sep.len() <= v.len(),
            j <= sep.len(),
            forall|k: int| 0 <= k < j ==> v@[i + k] == sep@[k],
        decreases sep.len() - j,
    {
        if v[i + j] != sep[j] {
            assert(v@.subrange(i as int, i + sep.len())[j as int] != sep@[j as int]);
            return false;
        }
        j = j + 1;
    }
    assert(v@.subrange(i as int, i + sep.len()) =~= sep@);
    true
}

/// The views of a list of character vectors.
pub open spec fn char_vecs(vs: Seq<Vec<char>>) -> Seq<Seq<char>> {
    vs.map_values(|v: Vec<char>| v@)
}

/// Splits `v` at every occurrence of the non-empty separator `sep`.
pub fn split_chars(v: &Vec<char>, sep: &Vec<char>) -> (res: Vec<Vec<char>>)
    requires
        sep.len() > 0,
    ensures
        char_vecs(res@) == split_on(v@, sep@),
{
    let mut done: Vec<Vec<char>> = Vec::new();
    let mut cur: Vec<char> = Vec::new();
    let mut i: usize = 0;
    proof {
        lemma_split_on_nonempty(v@, sep@);
        assert(v@.skip(0) =~= v@);
        assert(char_vecs(done@) =~= Seq::<Seq<char>>::empty());
        assert(glue_first(cur@, split_on(v@, sep@)) =~= split_on(v@, sep@));
    }
    while i < v.len()
        invariant
            i <= v.len(),
            sep.len() > 0,
            split_on(v@, sep@) == char_vecs(done@) + glue_first(cur@, split_on(v@.skip(i as int), sep@)),
        decreases v.len() - i,
    {
        let ghost tail = v@.skip(i as int);
        proof {
            lemma_split_on_nonempty(tail, sep@);
        }
        if matches_at(v, i, sep) {
            proof {
                assert(tail.take(sep@.len() as int) =~= v@.subrange(i as int, i + sep.len()));
                assert(tail.skip(sep@.len() as int) =~= v@.skip(i + sep.len()));
                lemma_split_on_nonempty(v@.skip(i + sep.len()), sep@);
                assert(split_on(tail, sep@) == seq![Seq::<char>::empty()] + split_on(v@.skip(i + sep.len()), sep@));
            }
            let finished = cur;
            let ghost before = char_vecs(done@);
            done.push(finished);
            cur = Vec::new();
            i = i + sep.len();
            proof {
                assert(char_vecs(done@) =~= before.push(finished@));
                let rest = split_on(v@.skip(i as int), sep@);
                assert(glue_first(cur@, rest) =~= rest);
                assert(glue_first(finished@, seq![Seq::<char>::empty()] + rest)
                    =~= seq![finished@] + rest);
                assert(before + (seq![finished@] + rest) =~= before.push(finished@) + rest);
            }
        } else {
            proof {
                if tail.len() >= sep@.len() {
                    assert(tail.take(sep@.len() as int) =~= v@.subrange(i as int, i + sep.len()));
                    assert(tail.drop_first() =~= v@.skip(i + 1));
                } else {
                    assert(v@.skip(i + 1) =~= tail.drop_first());
                    assert(split_on(v@.skip(i + 1), sep@) == seq![tail.drop_first()]);
                    assert(seq![tail[0]] + tail.drop_first() =~= tail);
                    assert(glue_first(seq![tail[0]], seq![tail.drop_first()]) =~= seq![tail]);
                }
                lemma_split_on_nonempty(v@.skip(i + 1), sep@);
                assert(split_on(tail, sep@) == glue_first(seq![v@[i as int]], split_on(v@.skip(i + 1), sep@)));
            }
            let c = v[i];
            let ghost old_cur = cur@;
            cur.push(c);
            i = i + 1;
            proof {
                let rest = split_on(v@.skip(i as int), sep@);
                assert(old_cur + (seq![c] + rest[0]) =~= cur@ + rest[0]);
                assert(glue_first(old_cur, glue_first(seq![c], rest)) =~= glue_first(cur@, rest));
            }
        }
    }
    proof {
        assert(v@.skip(i as int) =~= Seq::<char>::empty());
        assert(glue_first(cur@, seq![Seq::<char>::empty()]) =~= seq![cur@]);
    }
    let ghost before = char_vecs(done@);
    done.push(cur);
    assert(char_vecs(done@) =~= before.push(cur@));
    done
}

/// Splitting at a single character distributes over text joined at that character.
pub proof fn lemma_split_concat(a: Seq<char>, c: char, b: Seq<char>)
    ensures
        split_on(a + seq![c] + b, seq![c]) == split_on(a, seq![c]) + split_on(b, seq![c]),
    decreases a.len(),
{
    let sep = seq![c];
    let t = a + sep + b;
    if a.len() == 0 {
        assert(t =~= sep + b);
        assert(t.take(1) =~= sep);
        assert(t.skip(1) =~= b);
        assert(split_on(t, sep) == seq![Seq::<char>::empty()] + split_on(b, sep));
        assert(a =~= Seq::<char>::empty());
        assert(split_on(a, sep) == seq![a]);
    } else {
        lemma_split_concat(a.drop_first(), c, b);
        assert(t.drop_first() =~= a.drop_first() + sep + b);
        if a[0] == c {
            assert(t.take(1) =~= sep);
            assert(a.take(1) =~= sep);
            assert(t.skip(1) =~= a.drop_first() + sep + b);
            assert(a.skip(1) =~= a.drop_first());
            assert(split_on(t, sep) =~= split_on(a, sep) + split_on(b, sep));
        } else {
            assert(t.take(1) != sep) by {
                assert(t.take(1)[0] != sep[0]);
            }
            assert(a.take(1) != sep) by {
                assert(a.take(1)[0] != sep[0]);
            }
            lemma_split_on_nonempty(a.drop_first(), seq![c]);
            assert(split_on(t, sep) =~= split_on(a, sep) + split_on(b, sep));
        }
    }
}

/// Text without the separator character splits into itself alone.
pub proof fn lemma_split_without_sep(a: Seq<char>, c: char)
    requires
        !a.contains(c),
    ensures
        split_on(a, seq![c]) == seq![a],
    decreases a.len(),
{
    let sep = seq![c];
    if a.len() >= 1 {
        assert(a.take(1) != sep) by {
            assert(a.take(1)[0] == a[0]);
            assert(a[0] != c);
        }
        assert(!a.drop_first().contains(c)) by {
            if a.drop_first().contains(c) {
                let k = choose|k: int| 0 <= k < a.drop_first().len() && a.drop_first()[k] == c;
                assert(a[k + 1] == c);
            }
        }
        lemma_split_without_sep(a.drop_first(), c);
        assert(seq![a[0]] + a.drop_first() =~= a);
    }
}

/// Text joined at a character that none of its pieces holds splits back into those pieces.
pub proof fn lemma_split_join(r: Seq<Seq<char>>, c: char)
    requires
        r.len() >= 1,
        forall|j: int| 0 <= j < r.len() ==> !(#[trigger] r[j]).contains(c),
    ensures
        split_on(join_with(r, seq![c]), seq![c]) == r,
    decreases r.len(),
{
    if r.len() == 1 {
        lemma_split_without_sep(r[0], c);
        assert(seq![r[0]] =~= r);
    } else {
        let init = r.drop_last();
        assert forall|j: int| 0 <= j < init.len() implies !(#[trigger] init[j]).contains(c) by {
            assert(init[j] == r[j]);
        }
        lemma_split_join(init, c);
        lemma_split_concat(join_with(init, seq![c]), c, r.last());
        lemma_split_without_sep(r.last(), c);
        assert(init + seq![r.last()] =~= r);
    }
}

/// `items` joined with `sep` between consecutive items.
pub open spec fn join_with(items: Seq<Seq<char>>, sep: Seq<char>) -> Seq<char>
    decreases items.len(),
{
    if items.len() == 0 {
        Seq::empty()
    } else if items.len() == 1 {
        items[0]
    } else {
        join_with(items.drop_last(), sep) + sep + items.last()
    }
}

/// The views of a list of strings.
pub open spec fn views(items: Seq<String>) -> Seq<Seq<char>> {
    items.map_values(|s: String| s@)
}

/// `items` joined with `sep` (as `[String]::join`).
pub fn join(items: &Vec<String>, sep: &str) -> (res: String)
    ensures
        res@ == join_with(views(items@), sep@),
{
    let mut res = String::new();
    let mut i: usize = 0;
    while i < items.len()
        invariant
            i <= items.len(),
            res@ == join_with(views(items@).take(i as int), sep@),
        decreases items.len() - i,
    {
        if i > 0 {
            push_str(&mut res, sep);
        }
        push_str(&mut res, items[i].as_str());
        i = i + 1;
        proof {
            let prefix = views(items@).take(i as int);
            assert(prefix.drop_last() =~= views(items@).take(i - 1));
            if i == 1 {
                assert(res@ =~= prefix[0]);
            } else {
                assert(res@ =~= join_with(prefix.drop_last(), sep@) + sep@ + prefix.last());
            }
        }
    }
    assert(views(items@).take(items.len() as int) =~= views(items@));
    res
}

/// The ASCII digit for `d < 10`.
pub open spec fn digit_char(d: nat) -> char {
    ((d + 48) as u8) as char
}

/// The decimal representation of `n`, without leading zeros.
pub open spec fn decimal(n: nat) -> Seq<char>
    decreases n,
{
    if n < 10 {
        seq![digit_char(n)]
    } else {
        decimal(n / 10).push(digit_char(n % 10))
    }
}

/// Appends the decimal representation of `n` to `out` (as `{n}` formats it).
pub fn push_decimal(out: &mut String, n: usize)
    ensures
        final(out)@ == old(out)@ + decimal(n as nat),
    decreases n,
{
    if n >= 10 {
        push_decimal(out, n / 10);
    }
    let d = (n % 10) as u8;
    push_char(out, (d + 48) as char);
    assert(final(out)@ =~= old(out)@ + decimal(n as nat)) by {
        if n >= 10 {
            assert(decimal(n as nat) == decimal((n / 10) as nat).push(digit_char((n % 10) as nat)));
        }
    }
}

/// Whether character `c` turns into the ASCII character `k` under Unicode lowercasing,
/// for `k` a lowercase ASCII letter or another ASCII character that has no case.
/// Besides `k` itself, that is its ASCII capital and, for `k`, the KELVIN SIGN.
pub open spec fn lowers_to(c: char, k: char) -> bool {
    ||| c == k
    ||| ('a' <= k <= 'z' && c as u32 + 32 == k as u32)
    ||| (k == 'k' && c == '\u{212A}')
}

/// Whether `s` lowercases to `k` character by character.
pub open spec fn lowercase_equals_spec(s: Seq<char>, k: Seq<char>) -> bool {
    &&& s.len() == k.len()
    &&& forall|i: int| 0 <= i < s.len() ==> lowers_to(#[trigger] s[i], k[i])
}

/// Whether `s.to_lowercase()` equals `keyword`, for a keyword written in lowercase ASCII.
pub fn lowercase_equals(s: &str, keyword: &str) -> (r: bool)
    ensures
        r == lowercase_equals_spec(s@, keyword@),
{
    let sv = chars_of(s);
    let kv = chars_of(keyword);
    if sv.len() != kv.len() {
        return false;
    }
    let mut i: usize = 0;
    while i < sv.len()
        invariant
            sv@ == s@,
            kv@ == keyword@,
            sv.len() == kv.len(),
            i <= sv.len(),
            forall|j: int| 0 <= j < i ==> lowers_to(#[trigger] s@[j], keyword@[j]),
        decreases sv.len() - i,
    {
        let c = sv[i];
        let k = kv[i];
        let cu = c as u32;
        let ku = k as u32;
        let ok = c == k || ('a' <= k && k <= 'z' && ku >= 32 && cu == ku - 32) || (k == 'k' && c == '\u{212A}');
        if !ok {
            return false;
        }
        i = i + 1;
    }
    true
}

/// The ASCII lowercase of `c`; other characters are unchanged.
pub open spec fn ascii_lower(c: char) -> char {
    if 'A' <= c <= 'Z' {
        ((c as u32) + 32) as char
    } else {
        c
    }
}

/// Whether `a` and `b` are equal up to ASCII case (as `str::eq_ignore_ascii_case`).
pub open spec fn eq_ignore_ascii_case_spec(a: Seq<char>, b: Seq<char>) -> bool {
    &&& a.len() == b.len()
    &&& forall|i: int| 0 <= i < a.len() ==> ascii_lower(#[trigger] a[i]) == ascii_lower(b[i])
}

fn ascii_lower_exec(c: char) -> (r: char)
    ensures
        r == ascii_lower(c),
{
    if 'A' <= c && c <= 'Z' {
        let u = c as u32 + 32;
        assert(u == (c as u32) + 32);
        let b = u as u8;
        b as char
    } else {
        c
    }
}

/// Whether `a` and `b` are equal up to ASCII case.
pub fn eq_ignore_ascii_case(a: &str, b: &str) -> (r: bool)
    ensures
        r == eq_ignore_ascii_case_spec(a@, b@),
{
    let av = chars_of(a);
    let bv = chars_of(b);
    if av.len() != bv.len() {
        return false;
    }
    let mut i: usize = 0;
    while i < av.len()
        invariant
            av@ == a@,
            bv@ == b@,
            av.len() == bv.len(),
            i <= av.len(),
            forall|j: int| 0 <= j < i ==> ascii_lower(#[trigger] a@[j]) == ascii_lower(b@[j]),
        decreases av.len() - i,
    {
        if ascii_lower_exec(av[i]) != ascii_lower_exec(bv[i]) {
            return false;
        }
        i = i + 1;
    }
    true
}

/// Whether `c` has the Unicode White_Space property (as `char::is_whitespace`).
pub open spec fn is_whitespace(c: char) -> bool {
    ||| ('\t' <= c <= '\r')
    ||| c == ' '
    ||| c == '\u{85}'
    ||| c == '\u{A0}'
    ||| c == '\u{1680}'
    ||| ('\u{2000}' <= c <= '\u{200A}')
    ||| c == '\u{2028}'
    ||| c == '\u{2029}'
    ||| c == '\u{202F}'
    ||| c == '\u{205F}'
    ||| c == '\u{3000}'
}

fn is_whitespace_exec(c: char) -> (r: bool)
    ensures
        r == is_whitespace(c),
{
    ('\t' <= c && c <= '\r') || c == ' ' || c == '\u{85}' || c == '\u{A0}' || c == '\u{1680}'
        || ('\u{2000}' <= c && c <= '\u{200A}') || c == '\u{2028}' || c == '\u{2029}' || c == '\u{202F}'
        || c == '\u{205F}' || c == '\u{3000}'
}

/// `s` without its leading whitespace.
pub open spec fn trim_start_whitespace(s: Seq<char>) -> Seq<char>
    decreases s.len(),
{
    if s.len() > 0 && is_whitespace(s[0]) {
        trim_start_whitespace(s.drop_first())
    } else {
        s
    }
}

/// `s` without its trailing whitespace.
pub open spec fn trim_end_whitespace(s: Seq<char>) -> Seq<char>
    decreases s.len(),
{
    if s.len() > 0 && is_whitespace(s.last()) {
        trim_end_whitespace(s.drop_last())
    } else {
        s
    }
}

/// `s` without trailing whitespace (as `str::trim_end`).
pub fn trim_end(s: &str) -> (res: String)
    ensures
        res@ == trim_end_whitespace(s@),
{
    let v = chars_of(s);
    let mut b = v.len();
    assert(v@.subrange(0, b as int) =~= s@);
    while b > 0 && is_whitespace_exec(v[b - 1])
        invariant
            b <= v.len(),
            v@ == s@,
            trim_end_whitespace(s@) == trim_end_whitespace(v@.subrange(0, b as int)),
        decreases b,
    {
        assert(v@.subrange(0, b as int).drop_last() =~= v@.subrange(0, b - 1));
        b = b - 1;
    }
    string_of_range(&v, 0, b)
}

/// `s` without whitespace at either end (as `str::trim`).
pub fn trim(s: &str) -> (res: String)
    ensures
        res@ == trim_end_whitespace(trim_start_whitespace(s@)),
{
    let v = chars_of(s);
    let mut a: usize = 0;
    assert(v@.subrange(0, v.len() as int) =~= s@);
    while a < v.len() && is_whitespace_exec(v[a])
        invariant
            a <= v.len(),
            v@ == s@,
            trim_start_whitespace(s@) == trim_start_whitespace(v@.subrange(a as int, v.len() as int)),
        decreases v.len() - a,
    {
        assert(v@.subrange(a as int, v.len() as int).drop_first() =~= v@.subrange(a + 1, v.len() as int));
        a = a + 1;
    }
    let mut b = v.len();
    while b > a && is_whitespace_exec(v[b - 1])
        invariant
            a <= b <= v.len(),
            v@ == s@,
            trim_start_whitespace(s@) == v@.subrange(a as int, v.len() as int),
            trim_end_whitespace(trim_start_whitespace(s@)) == trim_end_whitespace(v@.subrange(a as int, b as int)),
        decreases b - a,
    {
        assert(v@.subrange(a as int, b as int).drop_last() =~= v@.subrange(a as int, b - 1));
        b = b - 1;
    }
    string_of_range(&v, a, b)
}

} // verus!
