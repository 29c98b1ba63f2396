//! Building AppleScript source and reading back what osascript prints.
//!
//! Records come back from AppleScript joined with the ASCII unit separator
//! between fields and the record separator after each record. These control
//! characters cannot realistically appear in todo content, so notes with
//! newlines or tabs survive the round trip.

use vstd::prelude::*;
use vstd::std_specs::iter::IteratorSpec;
use crate::text::{char_vecs, chars_of, join_with, lemma_split_concat, lemma_split_join, lemma_split_without_sep, owned, push_char, push_str, split_chars, split_on, string_of_range, views};

verus! {

broadcast use vstd::string::group_string_axioms;

/// Separates the fields of one record.
pub const FIELD_SEP: char = '\u{1F}';

/// Ends each record.
pub const RECORD_SEP: char = '\u{1E}';

/// AppleScript preamble binding the separator characters to `fs`/`rs`.
pub const SEP_PREAMBLE: &'static str = "set fs to character id 31\nset rs to character id 30";

// ── Script assembly ───────────────────────────────────────────────

/// The text that `tell_things` puts before the script body.
pub open spec fn tell_open() -> Seq<char> {
    "tell application \"Things3\"\n"@
}

/// The text that `tell_things` puts after the script body.
pub open spec fn tell_close() -> Seq<char> {
    "\nend tell"@
}

/// `body` wrapped in a `tell application "Things3"` block.
pub open spec fn told(body: Seq<char>) -> Seq<char> {
    tell_open() + body + tell_close()
}

/// Wrap a script body in a `tell application "Things3"` block.
pub fn tell_things(body: &str) -> (res: String)
    ensures
        res@ == told(body@),
{
    let mut res = owned("tell application \"Things3\"\n");
    push_str(&mut res, body);
    push_str(&mut res, "\nend tell");
    res
}

// ── Quoting ───────────────────────────────────────────────────────

/// How one character is written inside an AppleScript string literal.
pub open spec fn escape_char(c: char) -> Seq<char> {
    if c == '\\' || c == '"' {
        seq!['\\', c]
    } else {
        seq![c]
    }
}

/// The characters of `s` with every backslash and double quote preceded by a backslash.
pub open spec fn escape_chars(s: Seq<char>) -> Seq<char>
    decreases s.len(),
{
    if s.len() == 0 {
        seq![]
    } else {
        escape_char(s[0]) + escape_chars(s.drop_first())
    }
}

/// An AppleScript string literal whose value is `s`.
pub open spec fn quoted(s: Seq<char>) -> Seq<char> {
    seq!['"'] + escape_chars(s) + seq!['"']
}

proof fn lemma_escape_push(s: Seq<char>, c: char)
    ensures
        escape_chars(s.push(c)) == escape_chars(s) + escape_char(c),
    decreases s.len(),
{
    if s.len() == 0 {
        assert(s.push(c).drop_first() =~= Seq::<char>::empty());
        assert(s.push(c)[0] == c);
        assert(escape_chars(Seq::<char>::empty()) =~= Seq::<char>::empty());
        assert(escape_chars(s) =~= Seq::<char>::empty());
        assert(escape_chars(s.push(c)) =~= escape_char(c) + Seq::<char>::empty());
    } else {
        lemma_escape_push(s.drop_first(), c);
        assert(s.push(c).drop_first() =~= s.drop_first().push(c));
        assert(escape_chars(s.push(c)) =~= escape_chars(s) + escape_char(c));
    }
}

/// Quote a string for safe embedding in AppleScript source.
pub fn quote(s: &str) -> (res: String)
    ensures
        res@ == quoted(s@),
{
    let mut out = String::new();
    push_char(&mut out, '"');
    for c in it: s.chars()
        invariant
            it.seq() == s@,
            out@ == seq!['"'] + escape_chars(it.seq().take(it.index() as int)),
    {
        proof {
            assert(it.seq().take(it.index() + 1) =~= it.seq().take(it.index() as int).push(c));
            lemma_escape_push(it.seq().take(it.index() as int), c);
        }
        if c == '\\' || c == '"' {
            push_char(&mut out, '\\');
        }
        push_char(&mut out, c);
        assert(out@ =~= seq!['"'] + escape_chars(it.seq().take(it.index() + 1)));
    }
    assert(s@.take(s@.len() as int) =~= s@);
    push_char(&mut out, '"');
    out
}

/// How AppleScript reads the rest of a string literal after its opening quote:
/// the value read and how many characters it took, closing quote included.
/// A backslash takes the next character literally; an unescaped quote ends the literal.
pub open spec fn read_literal_body(t: Seq<char>) -> Option<(Seq<char>, nat)>
    decreases t.len(),
{
    if t.len() == 0 {
        None
    } else if t[0] == '"' {
        Some((Seq::<char>::empty(), 1nat))
    } else if t[0] == '\\' {
        if t.len() < 2 {
            None
        } else {
            match read_literal_body(t.skip(2)) {
                Some((v, n)) => Some((seq![t[1]] + v, n + 2)),
                None => None,
            }
        }
    } else {
        match read_literal_body(t.drop_first()) {
            Some((v, n)) => Some((seq![t[0]] + v, n + 1)),
            None => None,
        }
    }
}

/// How AppleScript reads a string literal at the start of `t`: its value and its length.
pub open spec fn read_literal(t: Seq<char>) -> Option<(Seq<char>, nat)> {
    if t.len() > 0 && t[0] == '"' {
        match read_literal_body(t.drop_first()) {
            Some((v, n)) => Some((v, n + 1)),
            None => None,
        }
    } else {
        None
    }
}

proof fn lemma_read_escaped(s: Seq<char>, rest: Seq<char>)
    ensures
        read_literal_body(escape_chars(s) + seq!['"'] + rest) == Some((s, (escape_chars(s).len() + 1) as nat)),
    decreases s.len(),
{
    let t = escape_chars(s) + seq!['"'] + rest;
    if s.len() == 0 {
        assert(t[0] == '"');
    } else {
        let c = s[0];
        let inner = escape_chars(s.drop_first()) + seq!['"'] + rest;
        lemma_read_escaped(s.drop_first(), rest);
        assert(seq![c] + s.drop_first() =~= s);
        if c == '\\' || c == '"' {
            assert(t =~= seq!['\\', c] + inner);
            assert(t.skip(2) =~= inner);
        } else {
            assert(t =~= seq![c] + inner);
            assert(t.drop_first() =~= inner);
        }
    }
}

/// Whatever follows it in a script, the literal that `quote` writes is read back
/// as exactly the quoted string, and it ends exactly where the quoted text ends:
/// no input can close the literal early and inject script code.
pub proof fn law_quote_reads_back(s: Seq<char>, rest: Seq<char>)
    ensures
        read_literal(quoted(s) + rest) == Some((s, quoted(s).len())),
{
    let t = quoted(s) + rest;
    lemma_read_escaped(s, rest);
    assert(t.drop_first() =~= escape_chars(s) + seq!['"'] + rest);
}

// ── Reading osascript output ──────────────────────────────────────

/// Whether `c` is stripped from both ends of a record.
pub open spec fn is_newline(c: char) -> bool {
    c == '\n' || c == '\r'
}

/// `s` without its leading newlines.
pub open spec fn trim_start_newlines(s: Seq<char>) -> Seq<char>
    decreases s.len(),
{
    if s.len() > 0 && is_newline(s[0]) {
        trim_start_newlines(s.drop_first())
    } else {
        s
    }
}

/// `s` without its trailing newlines.
pub open spec fn trim_end_newlines(s: Seq<char>) -> Seq<char>
    decreases s.len(),
{
    if s.len() > 0 && is_newline(s.last()) {
        trim_end_newlines(s.drop_last())
    } else {
        s
    }
}

/// `s` without newlines at either end (as `trim_matches(['\n', '\r'])`).
pub open spec fn trim_newlines(s: Seq<char>) -> Seq<char> {
    trim_end_newlines(trim_start_newlines(s))
}

/// A record's text split into its fields.
pub open spec fn record_fields(r: Seq<char>) -> Seq<Seq<char>> {
    split_on(r, seq![FIELD_SEP])
}

/// The records in osascript output: pieces between record separators, trimmed of
/// newlines, empty ones dropped, each split into fields.
pub open spec fn parsed_records(out: Seq<char>) -> Seq<Seq<Seq<char>>> {
    split_on(out, seq![RECORD_SEP]).map_values(|r: Seq<char>| trim_newlines(r)).filter(
        |r: Seq<char>| r.len() > 0,
    ).map_values(|r: Seq<char>| record_fields(r))
}

/// The views of a list of records of strings.
pub open spec fn record_views(rs: Seq<Vec<String>>) -> Seq<Seq<Seq<char>>> {
    rs.map_values(|r: Vec<String>| views(r@))
}

/// The bounds of `v[lo..hi]` without newlines at either end.
fn trim_newline_bounds(v: &Vec<char>, lo: usize, hi: usize) -> (res: (usize, usize))
    requires
        lo <= hi <= v.len(),
    ensures
        lo <= res.0 <= res.1 <= hi,
        v@.subrange(res.0 as int, res.1 as int) == trim_newlines(v@.subrange(lo as int, hi as int)),
{
    let ghost s = v@.subrange(lo as int, hi as int);
    let mut a = lo;
    while a < hi && (v[a] == '\n' || v[a] == '\r')
        invariant
            lo <= a <= hi <= v.len(),
            trim_start_newlines(s) == trim_start_newlines(v@.subrange(a as int, hi as int)),
        decreases hi - a,
    {
        assert(v@.subrange(a as int, hi as int).drop_first() =~= v@.subrange(a + 1, hi as int));
        a = a + 1;
    }
    assert(trim_start_newlines(s) == v@.subrange(a as int, hi as int));
    let mut b = hi;
    while b > a && (v[b - 1] == '\n' || v[b - 1] == '\r')
        invariant
            lo <= a <= b <= hi <= v.len(),
            trim_newlines(s) == trim_end_newlines(v@.subrange(a as int, b as int)),
        decreases b - a,
    {
        assert(v@.subrange(a as int, b as int).drop_last() =~= v@.subrange(a as int, b - 1));
        b = b - 1;
    }
    (a, b)
}

/// Copies `v[lo..hi]` into a new vector.
fn copy_range(v: &Vec<char>, lo: usize, hi: usize) -> (res: Vec<char>)
    requires
        lo <= hi <= v.len(),
    ensures
        res@ == v@.subrange(lo as int, hi as int),
{
    let mut res: Vec<char> = Vec::new();
    let mut i = lo;
    while i < hi
        invariant
            lo <= i <= hi <= v.len(),
            res@ == v@.subrange(lo as int, i as int),
        decreases hi - i,
    {
        res.push(v[i]);
        i = i + 1;
        assert(res@ =~= v@.subrange(lo as int, i as int));
    }
    res
}

/// Turns a list of character vectors into strings.
fn strings_of(pieces: &Vec<Vec<char>>) -> (res: Vec<String>)
    ensures
        views(res@) == char_vecs(pieces@),
{
    let mut res: Vec<String> = Vec::new();
    let mut i: usize = 0;
    while i < pieces.len()
        invariant
            i <= pieces.len(),
            views(res@) == char_vecs(pieces@).take(i as int),
        decreases pieces.len() - i,
    {
        let p = &pieces[i];
        let s = string_of_range(p, 0, p.len());
        assert(p@.subrange(0, p@.len() as int) =~= p@);
        let ghost before = res@;
        res.push(s);
        assert(res@ == before.push(s));
        assert(views(res@) =~= views(before).push(s@));
        assert(char_vecs(pieces@).take(i + 1) =~= char_vecs(pieces@).take(i as int).push(p@));
        i = i + 1;
    }
    assert(char_vecs(pieces@).take(pieces.len() as int) =~= char_vecs(pieces@));
    res
}

/// Split osascript output into records of fields.
pub fn parse_records(output: &str) -> (res: Vec<Vec<String>>)
    ensures
        record_views(res@) == parsed_records(output@),
{
    let chars = chars_of(output);
    let record_sep = vec![RECORD_SEP];
    let field_sep = vec![FIELD_SEP];
    assert(record_sep@ =~= seq![RECORD_SEP]);
    assert(field_sep@ =~= seq![FIELD_SEP]);
    let pieces = split_chars(&chars, &record_sep);
    let ghost trimmed = char_vecs(pieces@).map_values(|r: Seq<char>| trim_newlines(r));
    let ghost kept = |r: Seq<char>| r.len() > 0;
    let mut res: Vec<Vec<String>> = Vec::new();
    let mut i: usize = 0;
    while i < pieces.len()
        invariant
            i <= pieces.len(),
            field_sep@ == seq![FIELD_SEP],
            char_vecs(pieces@) == split_on(output@, seq![RECORD_SEP]),
            trimmed == char_vecs(pieces@).map_values(|r: Seq<char>| trim_newlines(r)),
            kept == (|r: Seq<char>| r.len() > 0),
            record_views(res@) == trimmed.take(i as int).filter(kept).map_values(
                |r: Seq<char>| record_fields(r),
            ),
        decreases pieces.len() - i,
    {
        let piece = &pieces[i];
        let (lo, hi) = trim_newline_bounds(piece, 0, piece.len());
        assert(piece@.subrange(0, piece@.len() as int) =~= piece@);
        let ghost prev = trimmed.take(i as int).filter(kept);
        proof {
            assert(trimmed.take(i + 1).drop_last() =~= trimmed.take(i as int));
            reveal_with_fuel(Seq::<_>::filter, 1);
        }
        if lo < hi {
            let record = copy_range(piece, lo, hi);
            let fields = split_chars(&record, &field_sep);
            let strings = strings_of(&fields);
            let ghost before = res@;
            res.push(strings);
            proof {
                assert(trimmed[i as int] == trim_newlines(piece@));
                assert(record@ == trimmed[i as int]);
                assert(views(strings@) == record_fields(trimmed[i as int]));
                assert(record_views(res@) =~= record_views(before).push(views(strings@)));
                assert(trimmed.take(i + 1).filter(kept) == prev.push(trimmed[i as int]));
                assert(prev.push(trimmed[i as int]).map_values(|r: Seq<char>| record_fields(r))
                    =~= prev.map_values(|r: Seq<char>| record_fields(r)).push(record_fields(trimmed[i as int])));
                assert(record_views(res@) =~= trimmed.take(i + 1).filter(kept).map_values(
                    |r: Seq<char>| record_fields(r),
                ));
            }
        } else {
            proof {
                assert(trimmed.take(i + 1).filter(kept) == prev);
            }
        }
        i = i + 1;
    }
    assert(trimmed.take(pieces.len() as int) =~= trimmed);
    res
}

// ── Round trip of the record format ───────────────────────────────

/// The text of one record: its fields joined by the field separator.
pub open spec fn record_text(r: Seq<Seq<char>>) -> Seq<char> {
    join_with(r, seq![FIELD_SEP])
}

/// How AppleScript writes records: each record's text followed by the record separator.
pub open spec fn serialize_records(rs: Seq<Seq<Seq<char>>>) -> Seq<char>
    decreases rs.len(),
{
    if rs.len() == 0 {
        Seq::empty()
    } else {
        record_text(rs[0]) + seq![RECORD_SEP] + serialize_records(rs.drop_first())
    }
}

/// A record that the format carries unchanged: its fields hold neither separator,
/// and its text is not empty and neither starts nor ends with a newline.
pub open spec fn transportable_record(r: Seq<Seq<char>>) -> bool {
    &&& forall|j: int|
        0 <= j < r.len() ==> !(#[trigger] r[j]).contains(FIELD_SEP) && !r[j].contains(RECORD_SEP)
    &&& record_text(r).len() > 0
    &&& !is_newline(record_text(r)[0])
    &&& !is_newline(record_text(r).last())
}

proof fn lemma_split_record_text(r: Seq<Seq<char>>)
    requires
        r.len() >= 1,
        forall|j: int| 0 <= j < r.len() ==> !(#[trigger] r[j]).contains(FIELD_SEP),
    ensures
        record_fields(record_text(r)) == r,
{
    lemma_split_join(r, FIELD_SEP);
}

proof fn lemma_record_text_no_record_sep(r: Seq<Seq<char>>)
    requires
        forall|j: int| 0 <= j < r.len() ==> !(#[trigger] r[j]).contains(RECORD_SEP),
    ensures
        !record_text(r).contains(RECORD_SEP),
    decreases r.len(),
{
    if r.len() > 1 {
        let init = r.drop_last();
        assert forall|j: int| 0 <= j < init.len() implies !(#[trigger] init[j]).contains(RECORD_SEP) by {
            assert(init[j] == r[j]);
        }
        lemma_record_text_no_record_sep(init);
        let t = record_text(r);
        let a = record_text(init);
        assert(t == a + seq![FIELD_SEP] + r.last());
        if t.contains(RECORD_SEP) {
            let k = choose|k: int| 0 <= k < t.len() && t[k] == RECORD_SEP;
            if k < a.len() {
                assert(a[k] == RECORD_SEP);
            } else if k > a.len() {
                assert(r.last()[k - a.len() - 1] == RECORD_SEP);
                assert(r.last().contains(RECORD_SEP));
            }
        }
    } else if r.len() == 1 {
        assert(record_text(r) == r[0]);
    }
}

proof fn lemma_split_serialized(rs: Seq<Seq<Seq<char>>>)
    requires
        forall|i: int| 0 <= i < rs.len() ==> transportable_record(#[trigger] rs[i]),
    ensures
        split_on(serialize_records(rs), seq![RECORD_SEP])
            == rs.map_values(|r: Seq<Seq<char>>| record_text(r)).push(Seq::<char>::empty()),
    decreases rs.len(),
{
    let texts = rs.map_values(|r: Seq<Seq<char>>| record_text(r));
    if rs.len() == 0 {
        assert(split_on(Seq::<char>::empty(), seq![RECORD_SEP]) == seq![Seq::<char>::empty()]);
        assert(texts.push(Seq::<char>::empty()) =~= seq![Seq::<char>::empty()]);
    } else {
        let rest = rs.drop_first();
        assert forall|i: int| 0 <= i < rest.len() implies transportable_record(#[trigger] rest[i]) by {
            assert(rest[i] == rs[i + 1]);
            assert(transportable_record(rs[i + 1]));
        }
        lemma_split_serialized(rest);
        assert(transportable_record(rs[0]));
        lemma_record_text_no_record_sep(rs[0]);
        lemma_split_without_sep(record_text(rs[0]), RECORD_SEP);
        lemma_split_concat(record_text(rs[0]), RECORD_SEP, serialize_records(rest));
        assert(texts =~= seq![record_text(rs[0])] + rest.map_values(|r: Seq<Seq<char>>| record_text(r)));
        assert(split_on(serialize_records(rs), seq![RECORD_SEP]) =~= texts.push(Seq::<char>::empty()));
    }
}

proof fn lemma_filter_keeps_all(s: Seq<Seq<char>>)
    requires
        forall|i: int| 0 <= i < s.len() ==> (#[trigger] s[i]).len() > 0,
    ensures
        s.filter(|r: Seq<char>| r.len() > 0) == s,
    decreases s.len(),
{
    reveal_with_fuel(Seq::<_>::filter, 1);
    if s.len() > 0 {
        let init = s.drop_last();
        assert forall|i: int| 0 <= i < init.len() implies (#[trigger] init[i]).len() > 0 by {
            assert(init[i] == s[i]);
        }
        lemma_filter_keeps_all(init);
        assert(init.push(s.last()) =~= s);
    }
}

/// Records that AppleScript writes in the record format are read back by
/// `parse_records` exactly, provided no field holds a separator character and no
/// record's text is empty or starts or ends with a newline (which the reader trims).
pub proof fn law_records_round_trip(rs: Seq<Seq<Seq<char>>>)
    requires
        forall|i: int| 0 <= i < rs.len() ==> transportable_record(#[trigger] rs[i]),
    ensures
        parsed_records(serialize_records(rs)) == rs,
{
    let texts = rs.map_values(|r: Seq<Seq<char>>| record_text(r));
    lemma_split_serialized(rs);
    let pieces = texts.push(Seq::<char>::empty());
    let trimmed = pieces.map_values(|r: Seq<char>| trim_newlines(r));
    assert forall|i: int| 0 <= i < texts.len() implies trim_newlines(#[trigger] texts[i]) == texts[i] by {
        assert(transportable_record(rs[i]));
        let t = texts[i];
        assert(trim_start_newlines(t) == t);
        assert(trim_end_newlines(t) == t);
    }
    assert(trimmed =~= texts.push(Seq::<char>::empty()));
    assert forall|i: int| 0 <= i < texts.len() implies (#[trigger] texts[i]).len() > 0 by {
        assert(transportable_record(rs[i]));
    }
    lemma_filter_keeps_all(texts);
    reveal_with_fuel(Seq::<_>::filter, 1);
    assert(texts.push(Seq::<char>::empty()).drop_last() =~= texts);
    assert(trimmed.filter(|r: Seq<char>| r.len() > 0) == texts);
    assert forall|i: int| 0 <= i < rs.len() implies record_fields(#[trigger] texts[i]) == rs[i] by {
        let r = rs[i];
        assert(transportable_record(r));
        assert(r.len() >= 1) by {
            if r.len() == 0 {
                assert(record_text(r) =~= Seq::<char>::empty());
            }
        }
        lemma_split_record_text(r);
    }
    assert(texts.map_values(|r: Seq<char>| record_fields(r)) =~= rs);
}

/// Optional field helper: empty string becomes None.
pub fn opt(s: &str) -> (res: Option<String>)
    ensures
        res.deep_view() == (if s@.len() == 0 { None } else { Some(s@) }),
{
    if s.is_empty() {
        None
    } else {
        Some(owned(s))
    }
}

} // verus!
