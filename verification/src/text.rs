//! Text as sequences of characters: what trimming, splitting, searching and
//! number formatting mean, and the functions that do them.
use vstd::prelude::*;

verus! {

/// `String::push` adds its character behind the characters that are there.
pub assume_specification[ String::push ](s: &mut String, c: char)
    ensures
        final(s)@ == old(s)@.push(c),
;

/// The characters of each string of `v`.
pub open spec fn texts(v: Seq<String>) -> Seq<Seq<char>> {
    Seq::new(v.len(), |i: int| v[i]@)
}

/// The characters of an optional string.
pub open spec fn opt_text(o: Option<String>) -> Option<Seq<char>> {
    match o {
        Some(s) => Some(s@),
        None => None,
    }
}

/// The characters of `s`, one by one.
pub fn chars_of(s: &str) -> (r: Vec<char>)
    ensures
        r@ == s@,
{
    let mut out: Vec<char> = Vec::new();
    for c in it: s.chars()
        invariant
            out@ == s@.take(it.index() as int),
            it.seq() == s@,
    {
        out.push(c);
    }
    out
}

/// The characters of `v` from `from` up to `to`, as a string.
pub fn text_between(v: &Vec<char>, from: usize, to: usize) -> (r: String)
    requires
        from <= to <= v@.len(),
    ensures
        r@ == v@.subrange(from as int, to as int),
{
    let mut out = String::new();
    let mut i: usize = from;
    while i < to
        invariant
            from <= i <= to <= v@.len(),
            out@ == v@.subrange(from as int, i as int),
        decreases to - i,
    {
        out.push(v[i]);
        i += 1;
    }
    out
}

/// `a` followed by `b`.
pub fn concat(a: &str, b: &str) -> (r: String)
    ensures
        r@ == a@ + b@,
{
    let mut out = a.to_string();
    out.append(b);
    out
}

/// `a`, `b` and `c`, one after the other.
pub fn concat3(a: &str, b: &str, c: &str) -> (r: String)
    ensures
        r@ == a@ + b@ + c@,
{
    let mut out = a.to_string();
    out.append(b);
    out.append(c);
    out
}

/// A copy of an optional string.
pub fn copy_opt(o: &Option<String>) -> (r: Option<String>)
    ensures
        opt_text(r) == opt_text(*o),
{
    match o {
        Some(s) => Some(s.as_str().to_string()),
        None => None,
    }
}

/// Whether `a` and `b` hold the same characters.
pub fn same_text(a: &str, b: &str) -> (r: bool)
    ensures
        r == (a@ == b@),
{
    let x = a.to_string();
    let y = b.to_string();
    x == y
}

// ---------------------------------------------------------------------------
// Trimming
// ---------------------------------------------------------------------------

/// The Unicode property `White_Space`.
pub open spec fn white_space(c: char) -> bool {
    ||| '\u{9}' <= c <= '\u{d}'
    ||| c == ' '
    ||| c == '\u{85}'
    ||| c == '\u{a0}'
    ||| c == '\u{1680}'
    ||| '\u{2000}' <= c <= '\u{200a}'
    ||| c == '\u{2028}'
    ||| c == '\u{2029}'
    ||| c == '\u{202f}'
    ||| c == '\u{205f}'
    ||| c == '\u{3000}'
}

/// `s` without the white space in front.
pub open spec fn without_front_white(s: Seq<char>) -> Seq<char>
    decreases s.len(),
{
    if s.len() > 0 && white_space(s[0]) {
        without_front_white(s.drop_first())
    } else {
        s
    }
}

/// `s` without the white space at the end.
pub open spec fn without_end_white(s: Seq<char>) -> Seq<char>
    decreases s.len(),
{
    if s.len() > 0 && white_space(s.last()) {
        without_end_white(s.drop_last())
    } else {
        s
    }
}

/// `s` without the white space at either end.
pub open spec fn trimmed(s: Seq<char>) -> Seq<char> {
    without_end_white(without_front_white(s))
}

/// Whether `c` is white space.
pub fn is_white_space(c: char) -> (r: bool)
    ensures
        r == white_space(c),
{
    ('\u{9}' <= c && c <= '\u{d}') || c == ' ' || c == '\u{85}' || c == '\u{a0}' || c
        == '\u{1680}' || ('\u{2000}' <= c && c <= '\u{200a}') || c == '\u{2028}' || c
        == '\u{2029}' || c == '\u{202f}' || c == '\u{205f}' || c == '\u{3000}'
}

/// `s` without the white space at either end.
pub fn trim(s: &str) -> (r: String)
    ensures
        r@ == trimmed(s@),
{
    let v = chars_of(s);
    let mut from: usize = 0;
    assert(v@.skip(0) == v@);
    while from < v.len() && is_white_space(v[from])
        invariant
            v@ == s@,
            from <= v@.len(),
            without_front_white(s@) == without_front_white(v@.skip(from as int)),
        decreases v@.len() - from,
    {
        assert(v@.skip(from as int).drop_first() == v@.skip(from + 1));
        from += 1;
    }
    let ghost front = v@.skip(from as int);
    let mut to: usize = v.len();
    assert(front == v@.subrange(from as int, to as int));
    while to > from && is_white_space(v[to - 1])
        invariant
            v@ == s@,
            from <= to <= v@.len(),
            without_end_white(front) == without_end_white(v@.subrange(from as int, to as int)),
        decreases to,
    {
        assert(v@.subrange(from as int, to as int).drop_last() == v@.subrange(
            from as int,
            to - 1,
        ));
        to -= 1;
    }
    text_between(&v, from, to)
}

// ---------------------------------------------------------------------------
// Searching
// ---------------------------------------------------------------------------

/// `part` stands in `s` at position `i`.
pub open spec fn stands_at(s: Seq<char>, part: Seq<char>, i: int) -> bool {
    &&& 0 <= i <= s.len() - part.len()
    &&& s.subrange(i, i + part.len()) == part
}

/// `part` stands somewhere in `s`.
pub open spec fn has_part(s: Seq<char>, part: Seq<char>) -> bool {
    exists|i: int| stands_at(s, part, i)
}

/// Whether `part` stands in `s` at position `i`.
fn check_at(s: &Vec<char>, part: &Vec<char>, i: usize) -> (r: bool)
    requires
        i <= s@.len(),
    ensures
        r == stands_at(s@, part@, i as int),
{
    if part.len() > s.len() - i {
        return false;
    }
    let mut k: usize = 0;
    while k < part.len()
        invariant
            k <= part@.len(),
            i + part@.len() <= s.len(),
            s@.subrange(i as int, i + k) == part@.take(k as int),
        decreases part@.len() - k,
    {
        if s[i + k] != part[k] {
            assert(s@.subrange(i as int, i + part@.len())[k as int] != part@[k as int]);
            return false;
        }
        k += 1;
    }
    assert(part@.take(k as int) == part@);
    true
}

/// Whether `s` begins with `prefix`.
pub fn starts_with(s: &str, prefix: &str) -> (r: bool)
    ensures
        r == prefix@.is_prefix_of(s@),
{
    check_at(&chars_of(s), &chars_of(prefix), 0)
}

/// Whether `s` ends with `suffix`.
pub fn ends_with(s: &str, suffix: &str) -> (r: bool)
    ensures
        r == suffix@.is_suffix_of(s@),
{
    let v = chars_of(s);
    let p = chars_of(suffix);
    if p.len() > v.len() {
        return false;
    }
    check_at(&v, &p, v.len() - p.len())
}

/// Whether `part` stands somewhere in `s`.
pub fn contains(s: &str, part: &str) -> (r: bool)
    ensures
        r == has_part(s@, part@),
{
    let v = chars_of(s);
    let p = chars_of(part);
    let mut i: usize = 0;
    while i <= v.len()
        invariant
            v@ == s@,
            p@ == part@,
            i <= v@.len() + 1,
            forall|k: int| 0 <= k < i ==> !stands_at(s@, part@, k),
        decreases v@.len() + 1 - i,
    {
        if check_at(&v, &p, i) {
            return true;
        }
        if i == v.len() {
            assert(forall|k: int| stands_at(s@, part@, k) ==> k <= s@.len());
            return false;
        }
        i += 1;
    }
    false
}

/// What stands in `s` before the first `c`, if there is a `c`.
pub open spec fn before(s: Seq<char>, c: char) -> Option<Seq<char>>
    decreases s.len(),
{
    if s.len() == 0 {
        None
    } else if s[0] == c {
        Some(Seq::empty())
    } else {
        match before(s.drop_first(), c) {
            Some(rest) => Some(seq![s[0]] + rest),
            None => None,
        }
    }
}

/// What stands in `s` before the first `c`, if there is a `c`.
pub fn before_first(s: &str, c: char) -> (r: Option<String>)
    ensures
        opt_text(r) == before(s@, c),
{
    let v = chars_of(s);
    let mut i: usize = 0;
    assert(v@.skip(0) == v@);
    while i < v.len()
        invariant
            v@ == s@,
            i <= v@.len(),
            before(s@, c) == (match before(v@.skip(i as int), c) {
                Some(rest) => Some(v@.take(i as int) + rest),
                None => None,
            }),
        decreases v@.len() - i,
    {
        let ghost left = v@.skip(i as int);
        if v[i] == c {
            let t = text_between(&v, 0, i);
            assert(t@ == v@.take(i as int) + Seq::<char>::empty());
            return Some(t);
        }
        assert(left.drop_first() == v@.skip(i + 1));
        assert(v@.take(i + 1) == v@.take(i as int).push(left[0]));
        assert(forall|rest: Seq<char>|
            v@.take(i + 1) + rest == v@.take(i as int) + #[trigger] (seq![left[0]] + rest));
        i += 1;
    }
    None
}

// ---------------------------------------------------------------------------
// Splitting and replacing
// ---------------------------------------------------------------------------

/// The pieces of `s` between the separators `c`: one more than there are
/// separators.
pub open spec fn pieces(s: Seq<char>, c: char) -> Seq<Seq<char>>
    decreases s.len(),
{
    if s.len() == 0 {
        seq![Seq::empty()]
    } else {
        let front = pieces(s.drop_last(), c);
        if s.last() == c {
            front.push(Seq::empty())
        } else {
            front.drop_last().push(front.last().push(s.last()))
        }
    }
}

/// The pieces of `s` between the separators `c`.
pub fn split(s: &str, c: char) -> (r: Vec<String>)
    ensures
        texts(r@) == pieces(s@, c),
        s@.len() <= usize::MAX,
{
    let v = chars_of(s);
    let mut done: Vec<String> = Vec::new();
    let mut piece = String::new();
    let mut i: usize = 0;
    assert(v@.take(0) == Seq::<char>::empty());
    while i < v.len()
        invariant
            v@ == s@,
            i <= v@.len(),
            pieces(v@.take(i as int), c) == texts(done@).push(piece@),
        decreases v@.len() - i,
    {
        assert(v@.take(i + 1).drop_last() == v@.take(i as int));
        let ghost front = texts(done@);
        if v[i] == c {
            let ghost last = piece@;
            done.push(piece);
            assert(texts(done@) == front.push(last));
            piece = String::new();
        } else {
            assert(front.push(piece@).drop_last() == front);
            piece.push(v[i]);
        }
        i += 1;
    }
    assert(v@.take(i as int) == v@);
    let ghost front = texts(done@);
    let ghost last = piece@;
    done.push(piece);
    assert(texts(done@) == front.push(last));
    done
}

/// `s` without a carriage return at its end.
pub open spec fn without_return(s: Seq<char>) -> Seq<char> {
    if s.len() > 0 && s.last() == '\r' {
        s.drop_last()
    } else {
        s
    }
}

/// The lines of `s`. A line ends with a line feed, or with a carriage return
/// and a line feed; the last line may have no end.
pub open spec fn lines_of(s: Seq<char>) -> Seq<Seq<char>> {
    let all = pieces(s, '\n');
    let ended = all.drop_last().map_values(|line: Seq<char>| without_return(line));
    if all.last().len() == 0 {
        ended
    } else {
        ended.push(all.last())
    }
}

/// There is always at least one piece.
pub proof fn lemma_pieces_nonempty(s: Seq<char>, c: char)
    ensures
        pieces(s, c).len() > 0,
    decreases s.len(),
{
    if s.len() > 0 {
        lemma_pieces_nonempty(s.drop_last(), c);
    }
}

/// The lines of `s`.
pub fn lines(s: &str) -> (r: Vec<String>)
    ensures
        texts(r@) == lines_of(s@),
        s@.len() <= usize::MAX,
{
    let all = split(s, '\n');
    proof {
        lemma_pieces_nonempty(s@, '\n');
    }
    assert(texts(all@).len() == all@.len());
    let ghost f = |line: Seq<char>| without_return(line);
    let mut out: Vec<String> = Vec::new();
    let mut i: usize = 0;
    while i < all.len() - 1
        invariant
            texts(all@) == pieces(s@, '\n'),
            0 <= i < all@.len(),
            f == |line: Seq<char>| without_return(line),
            texts(out@) == texts(all@).take(i as int).map_values(f),
        decreases all@.len() - i,
    {
        let line = chars_of(all[i].as_str());
        let ghost before = texts(out@);
        let end: usize = if line.len() > 0 && line[line.len() - 1] == '\r' {
            line.len() - 1
        } else {
            line.len()
        };
        let kept = text_between(&line, 0, end);
        assert(kept@ == without_return(texts(all@)[i as int]));
        out.push(kept);
        assert(texts(out@) == before.push(kept@));
        assert(texts(all@).take(i + 1).map_values(f) == before.push(kept@));
        i += 1;
    }
    assert(texts(all@).take(i as int) == texts(all@).drop_last());
    if !all[i].as_str().is_empty() {
        let ghost before = texts(out@);
        let last = all[i].as_str().to_string();
        out.push(last);
        assert(texts(out@) == before.push(last@));
    }
    out
}

/// How many characters the texts have together.
pub open spec fn total_len(v: Seq<Seq<char>>) -> nat
    decreases v.len(),
{
    if v.len() == 0 {
        0
    } else {
        total_len(v.drop_last()) + v.last().len()
    }
}

/// The first texts of a row have no more characters than all of them.
pub proof fn lemma_total_len_grows(v: Seq<Seq<char>>, n: int)
    requires
        0 <= n <= v.len(),
    ensures
        total_len(v.take(n)) <= total_len(v),
    decreases v.len(),
{
    if n < v.len() {
        lemma_total_len_grows(v.drop_last(), n);
        assert(v.drop_last().take(n) == v.take(n));
    } else {
        assert(v.take(n) == v);
    }
}

/// The pieces of a text have no more characters than the text.
proof fn lemma_pieces_total(s: Seq<char>, c: char)
    ensures
        total_len(pieces(s, c)) <= s.len(),
    decreases s.len(),
{
    if s.len() == 0 {
        assert(pieces(s, c).drop_last() == Seq::<Seq<char>>::empty());
        reveal_with_fuel(total_len, 2);
    } else {
        lemma_pieces_total(s.drop_last(), c);
        lemma_pieces_nonempty(s.drop_last(), c);
        let front = pieces(s.drop_last(), c);
        if s.last() == c {
            assert(front.push(Seq::empty()).drop_last() == front);
        } else {
            let last = front.last().push(s.last());
            assert(front.drop_last().push(last).drop_last() == front.drop_last());
        }
    }
}

/// Lines without their carriage returns have no more characters.
proof fn lemma_returns_total(v: Seq<Seq<char>>)
    ensures
        total_len(v.map_values(|line: Seq<char>| without_return(line))) <= total_len(v),
    decreases v.len(),
{
    let f = |line: Seq<char>| without_return(line);
    if v.len() > 0 {
        lemma_returns_total(v.drop_last());
        assert(v.map_values(f).drop_last() == v.drop_last().map_values(f));
    } else {
        assert(v.map_values(f) == v);
    }
}

/// The lines of a text have no more characters than the text.
pub proof fn lemma_lines_total(s: Seq<char>)
    ensures
        total_len(lines_of(s)) <= s.len(),
{
    let all = pieces(s, '\n');
    lemma_pieces_nonempty(s, '\n');
    lemma_pieces_total(s, '\n');
    lemma_returns_total(all.drop_last());
    let ended = all.drop_last().map_values(|line: Seq<char>| without_return(line));
    assert(ended.push(all.last()).drop_last() == ended);
}

/// Trimming leaves no more characters than there were.
pub proof fn lemma_trimmed_len(s: Seq<char>)
    ensures
        trimmed(s).len() <= s.len(),
{
    lemma_front_len(s);
    lemma_end_len(without_front_white(s));
}

proof fn lemma_front_len(s: Seq<char>)
    ensures
        without_front_white(s).len() <= s.len(),
    decreases s.len(),
{
    if s.len() > 0 && white_space(s[0]) {
        lemma_front_len(s.drop_first());
    }
}

proof fn lemma_end_len(s: Seq<char>)
    ensures
        without_end_white(s).len() <= s.len(),
    decreases s.len(),
{
    if s.len() > 0 && white_space(s.last()) {
        lemma_end_len(s.drop_last());
    }
}

/// `s` with every two backslashes in a row, from the front, made one.
pub open spec fn unescaped(s: Seq<char>) -> Seq<char>
    decreases s.len(),
{
    if s.len() >= 2 && s[0] == '\\' && s[1] == '\\' {
        seq!['\\'] + unescaped(s.skip(2))
    } else if s.len() > 0 {
        seq![s[0]] + unescaped(s.skip(1))
    } else {
        s
    }
}

/// `s` with every backslash written twice.
pub open spec fn escaped(s: Seq<char>) -> Seq<char>
    decreases s.len(),
{
    if s.len() == 0 {
        s
    } else if s[0] == '\\' {
        seq!['\\', '\\'] + escaped(s.skip(1))
    } else {
        seq![s[0]] + escaped(s.skip(1))
    }
}

/// Making doubled backslashes single gives back what was written with every
/// backslash doubled.
pub proof fn law_unescape_reverses_escape(s: Seq<char>)
    ensures
        unescaped(escaped(s)) == s,
    decreases s.len(),
{
    if s.len() > 0 {
        law_unescape_reverses_escape(s.skip(1));
        let rest = escaped(s.skip(1));
        if s[0] == '\\' {
            assert(escaped(s).skip(2) == rest);
        } else {
            assert(escaped(s).skip(1) == rest);
        }
        assert(s == seq![s[0]] + s.skip(1));
    }
}

/// `s` with every two backslashes in a row made one.
pub fn unescape_backslashes(s: &str) -> (r: String)
    ensures
        r@ == unescaped(s@),
{
    let v = chars_of(s);
    let mut out = String::new();
    let mut i: usize = 0;
    assert(v@.skip(0) == v@);
    while i < v.len()
        invariant
            v@ == s@,
            i <= v@.len(),
            unescaped(s@) == out@ + unescaped(v@.skip(i as int)),
        decreases v@.len() - i,
    {
        let ghost left = v@.skip(i as int);
        let ghost had = out@;
        if v.len() - i >= 2 && v[i] == '\\' && v[i + 1] == '\\' {
            assert(left.skip(2) == v@.skip(i + 2));
            out.push('\\');
            assert(had + (seq!['\\'] + unescaped(left.skip(2))) == out@ + unescaped(left.skip(2)));
            i += 2;
        } else {
            assert(left.skip(1) == v@.skip(i + 1));
            out.push(v[i]);
            assert(had + (seq![left[0]] + unescaped(left.skip(1))) == out@ + unescaped(
                left.skip(1),
            ));
            i += 1;
        }
    }
    assert(v@.skip(i as int) == Seq::<char>::empty());
    out
}

/// How often `c` stands in `s`.
pub open spec fn count_of(s: Seq<char>, c: char) -> nat {
    s.filter(|x: char| x == c).len()
}

/// How often `c` stands in `s`.
pub fn count(s: &str, c: char) -> (r: usize)
    ensures
        r == count_of(s@, c),
{
    let v = chars_of(s);
    let mut n: usize = 0;
    let mut i: usize = 0;
    assert(v@.take(0) == Seq::<char>::empty());
    while i < v.len()
        invariant
            v@ == s@,
            i <= v@.len(),
            n <= i,
            n == count_of(v@.take(i as int), c),
        decreases v@.len() - i,
    {
        assert(v@.take(i + 1).drop_last() == v@.take(i as int));
        reveal(Seq::filter);
        if v[i] == c {
            n += 1;
        }
        i += 1;
    }
    assert(v@.take(i as int) == v@);
    n
}

// ---------------------------------------------------------------------------
// Case, order and width
// ---------------------------------------------------------------------------

/// `c` in lower case where it is an ASCII letter.
pub open spec fn ascii_lower(c: char) -> char {
    if 'A' <= c <= 'Z' {
        (c as u32 + 32) as char
    } else {
        c
    }
}

/// `s` with its ASCII letters in lower case.
pub open spec fn lower_text(s: Seq<char>) -> Seq<char> {
    s.map_values(|c: char| ascii_lower(c))
}

/// `s` with its ASCII letters in lower case.
pub fn to_ascii_lowercase(s: &str) -> (r: String)
    ensures
        r@ == lower_text(s@),
{
    let v = chars_of(s);
    let mut out = String::new();
    let mut i: usize = 0;
    while i < v.len()
        invariant
            v@ == s@,
            i <= v@.len(),
            out@ == lower_text(v@.take(i as int)),
        decreases v@.len() - i,
    {
        let c = v[i];
        if 'A' <= c && c <= 'Z' {
            out.push((c as u8 + 32) as char);
        } else {
            out.push(c);
        }
        assert(lower_text(v@.take(i + 1)) == lower_text(v@.take(i as int)).push(ascii_lower(c)));
        i += 1;
    }
    assert(v@.take(i as int) == v@);
    out
}

/// `a` comes before `b` or equals it in the order of their characters' code
/// points, compared from the front.
pub open spec fn text_le(a: Seq<char>, b: Seq<char>) -> bool
    decreases a.len(),
{
    if a.len() == 0 {
        true
    } else if b.len() == 0 {
        false
    } else if a[0] == b[0] {
        text_le(a.drop_first(), b.drop_first())
    } else {
        a[0] < b[0]
    }
}

/// Whether `a` comes before `b` or equals it.
pub fn not_after(a: &str, b: &str) -> (r: bool)
    ensures
        r == text_le(a@, b@),
{
    let x = chars_of(a);
    let y = chars_of(b);
    let mut i: usize = 0;
    assert(x@.skip(0) == x@);
    assert(y@.skip(0) == y@);
    while i < x.len()
        invariant
            x@ == a@,
            y@ == b@,
            i <= x@.len(),
            i <= y@.len(),
            text_le(a@, b@) == text_le(x@.skip(i as int), y@.skip(i as int)),
        decreases x@.len() - i,
    {
        if i == y.len() {
            return false;
        }
        if x[i] != y[i] {
            return x[i] < y[i];
        }
        assert(x@.skip(i as int).drop_first() == x@.skip(i + 1));
        assert(y@.skip(i as int).drop_first() == y@.skip(i + 1));
        i += 1;
    }
    true
}

/// Any two texts stand in order one way or the other.
pub proof fn lemma_text_le_total(a: Seq<char>, b: Seq<char>)
    ensures
        text_le(a, b) || text_le(b, a),
    decreases a.len(),
{
    if a.len() > 0 && b.len() > 0 && a[0] == b[0] {
        lemma_text_le_total(a.drop_first(), b.drop_first());
    }
}

/// The order of texts passes on from one to the next.
pub proof fn lemma_text_le_transitive(a: Seq<char>, b: Seq<char>, c: Seq<char>)
    requires
        text_le(a, b),
        text_le(b, c),
    ensures
        text_le(a, c),
    decreases a.len(),
{
    if a.len() > 0 && b.len() > 0 && c.len() > 0 && a[0] == b[0] && b[0] == c[0] {
        lemma_text_le_transitive(a.drop_first(), b.drop_first(), c.drop_first());
    }
}

/// Two texts that are each not after the other are the same.
pub proof fn lemma_text_le_antisymmetric(a: Seq<char>, b: Seq<char>)
    requires
        text_le(a, b),
        text_le(b, a),
    ensures
        a == b,
    decreases a.len(),
{
    if a.len() > 0 && b.len() > 0 && a[0] == b[0] {
        lemma_text_le_antisymmetric(a.drop_first(), b.drop_first());
        assert(a == seq![a[0]] + a.drop_first());
        assert(b == seq![b[0]] + b.drop_first());
    } else {
        assert(a =~= b);
    }
}

/// `s` with spaces behind it, up to `width` characters.
pub open spec fn padded(s: Seq<char>, width: nat) -> Seq<char> {
    if s.len() < width {
        s + Seq::new((width - s.len()) as nat, |i: int| ' ')
    } else {
        s
    }
}

/// `s` with spaces behind it, up to `width` characters.
pub fn pad_end(s: &str, width: usize) -> (r: String)
    ensures
        r@ == padded(s@, width as nat),
{
    let mut n = s.unicode_len();
    let mut out = s.to_string();
    while n < width
        invariant
            n >= s@.len(),
            n == out@.len(),
            n > width ==> out@ == s@,
            n <= width ==> out@ == padded(s@, n as nat),
        decreases width - n,
    {
        out.push(' ');
        n += 1;
        assert(out@ == padded(s@, n as nat));
    }
    out
}

// ---------------------------------------------------------------------------
// What these mean together
// ---------------------------------------------------------------------------

/// White space on either side of a text that neither begins nor ends with any
/// is what trimming takes away, and nothing else.
pub proof fn law_trimming_takes_the_white_space_around(
    front: Seq<char>,
    text: Seq<char>,
    back: Seq<char>,
)
    requires
        forall|i: int| 0 <= i < front.len() ==> white_space(#[trigger] front[i]),
        forall|i: int| 0 <= i < back.len() ==> white_space(#[trigger] back[i]),
        text.len() > 0 ==> !white_space(text[0]) && !white_space(text.last()),
    ensures
        trimmed(front + text + back) == text,
    decreases front.len() + back.len(),
{
    let s = front + text + back;
    if front.len() > 0 {
        assert(s[0] == front[0]);
        assert(s.drop_first() == front.drop_first() + text + back);
        assert forall|i: int| 0 <= i < front.drop_first().len() implies white_space(
            #[trigger] front.drop_first()[i],
        ) by {
            assert(front.drop_first()[i] == front[i + 1]);
        }
        law_trimming_takes_the_white_space_around(front.drop_first(), text, back);
    } else if text.len() == 0 {
        assert(s == back);
        if back.len() > 0 {
            assert forall|i: int| 0 <= i < back.drop_first().len() implies white_space(
                #[trigger] back.drop_first()[i],
            ) by {
                assert(back.drop_first()[i] == back[i + 1]);
            }
            assert(white_space(back[0]));
            law_trimming_takes_the_white_space_around(front, text, back.drop_first());
            assert(front + text + back.drop_first() == back.drop_first());
        } else {
            assert(s == text);
        }
    } else {
        assert(s[0] == text[0]);
        assert(without_front_white(s) == s);
        lemma_end_white_goes(text, back);
        assert(s == text + back);
    }
}

proof fn lemma_end_white_goes(text: Seq<char>, back: Seq<char>)
    requires
        text.len() > 0,
        !white_space(text.last()),
        forall|i: int| 0 <= i < back.len() ==> white_space(#[trigger] back[i]),
    ensures
        without_end_white(text + back) == text,
    decreases back.len(),
{
    let s = text + back;
    if back.len() > 0 {
        assert(white_space(back[back.len() - 1]));
        assert(s.last() == back.last());
        assert(s.drop_last() == text + back.drop_last());
        assert forall|i: int| 0 <= i < back.drop_last().len() implies white_space(
            #[trigger] back.drop_last()[i],
        ) by {
            assert(back.drop_last()[i] == back[i]);
        }
        lemma_end_white_goes(text, back.drop_last());
    } else {
        assert(s == text);
    }
}

/// A part stands in a text just if the text is the part with something, or
/// nothing, before and behind it.
pub proof fn law_a_part_has_something_around_it(s: Seq<char>, part: Seq<char>)
    ensures
        has_part(s, part) <==> exists|front: Seq<char>, back: Seq<char>|
            s == #[trigger] (front + part + back),
{
    if has_part(s, part) {
        let i = choose|i: int| stands_at(s, part, i);
        let front = s.take(i);
        let back = s.skip(i + part.len());
        assert(s =~= front + part + back) by {
            assert(s.subrange(i, i + part.len()) == part);
            assert forall|k: int| 0 <= k < s.len() implies s[k] == (front + part + back)[k] by {
                if i <= k < i + part.len() {
                    assert(s.subrange(i, i + part.len())[k - i] == s[k]);
                }
            }
        }
    }
    if exists|front: Seq<char>, back: Seq<char>| s == #[trigger] (front + part + back) {
        let (front, back) = choose|front: Seq<char>, back: Seq<char>|
            s == #[trigger] (front + part + back);
        assert(s.subrange(front.len() as int, (front.len() + part.len()) as int) =~= part);
        assert(stands_at(s, part, front.len() as int));
    }
}

/// What stands before the first of a character: the text up to it, if there is
/// one.
pub proof fn law_before_is_up_to_the_first(front: Seq<char>, c: char, back: Seq<char>)
    requires
        !front.contains(c),
    ensures
        before(front, c) is None,
        before(front.push(c) + back, c) == Some(front),
    decreases front.len(),
{
    let s = front.push(c) + back;
    if front.len() > 0 {
        let rest = front.drop_first();
        assert(front.contains(front[0]));
        assert(!rest.contains(c)) by {
            if rest.contains(c) {
                let i = choose|i: int| 0 <= i < rest.len() && rest[i] == c;
                assert(front[i + 1] == c);
            }
        }
        law_before_is_up_to_the_first(rest, c, back);
        assert(s.drop_first() == rest.push(c) + back);
        assert(seq![front[0]] + rest == front);
        assert(s[0] == front[0]);
    } else {
        assert(s[0] == c);
        assert(front == Seq::<char>::empty());
    }
}

/// The texts with a character between each two of them.
pub open spec fn joined(v: Seq<Seq<char>>, c: char) -> Seq<char>
    decreases v.len(),
{
    if v.len() == 0 {
        Seq::empty()
    } else if v.len() == 1 {
        v[0]
    } else {
        joined(v.drop_last(), c).push(c) + v.last()
    }
}

/// The pieces of a text, put together with the separator between them, are the
/// text, and no piece holds the separator.
pub proof fn law_pieces_make_up_the_text(s: Seq<char>, c: char)
    ensures
        pieces(s, c).len() > 0,
        joined(pieces(s, c), c) == s,
        forall|i: int, k: int|
            0 <= i < pieces(s, c).len() && 0 <= k < pieces(s, c)[i].len()
                ==> #[trigger] pieces(s, c)[i][k] != c,
    decreases s.len(),
{
    let p = pieces(s, c);
    if s.len() == 0 {
        assert(p == seq![Seq::<char>::empty()]);
        assert(joined(p, c) == s);
    } else {
        let front = pieces(s.drop_last(), c);
        law_pieces_make_up_the_text(s.drop_last(), c);
        assert(s == s.drop_last().push(s.last()));
        if s.last() == c {
            assert(p.drop_last() == front);
            assert(joined(front, c).push(c) + Seq::<char>::empty() == s);
        } else {
            let last = front.last().push(s.last());
            assert(p.drop_last() == front.drop_last());
            if front.len() == 1 {
                assert(p.len() == 1 && p[0] == last);
            } else {
                assert(joined(front.drop_last(), c).push(c) + last == (joined(
                    front.drop_last(),
                    c,
                ).push(c) + front.last()).push(s.last()));
            }
            assert forall|i: int, k: int| 0 <= i < p.len() && 0 <= k < p[i].len() implies (
            #[trigger] p[i][k]) != c by {
                if i == p.len() - 1 {
                    if k < front.last().len() {
                        assert(front[front.len() - 1][k] != c);
                    }
                } else {
                    assert(p[i] == front[i]);
                    assert(front[i][k] != c);
                }
            }
        }
    }
}

proof fn lemma_pieces_first(line: Seq<char>, c: char, rest: Seq<char>)
    requires
        !line.contains(c),
    ensures
        pieces(line, c) == seq![line],
        pieces(line.push(c) + rest, c) == seq![line] + pieces(rest, c),
    decreases line.len() + rest.len(),
{
    let s = line.push(c) + rest;
    if rest.len() > 0 {
        lemma_pieces_first(line, c, rest.drop_last());
        lemma_pieces_nonempty(rest.drop_last(), c);
        let y = pieces(rest.drop_last(), c);
        assert(s.drop_last() == line.push(c) + rest.drop_last());
        assert(s.last() == rest.last());
        assert(pieces(s.drop_last(), c) == seq![line] + y);
        if s.last() == c {
            assert((seq![line] + y).push(Seq::empty()) == seq![line] + y.push(Seq::empty()));
        } else {
            assert((seq![line] + y).drop_last().push((seq![line] + y).last().push(s.last()))
                == seq![line] + y.drop_last().push(y.last().push(s.last())));
        }
    } else {
        if line.len() > 0 {
            let front = line.drop_last();
            assert(line.contains(line[line.len() - 1]));
            assert(!front.contains(c)) by {
                if front.contains(c) {
                    let i = choose|i: int| 0 <= i < front.len() && front[i] == c;
                    assert(line[i] == c);
                }
            }
            lemma_pieces_first(front, c, rest);
            assert(pieces(line, c) == seq![front].drop_last().push(front.push(line.last())));
            assert(front.push(line.last()) == line);
            assert(pieces(line, c) == seq![line]);
        } else {
            assert(line == Seq::<char>::empty());
            assert(pieces(line, c) == seq![line]);
        }
        assert(s == line.push(c));
        assert(s.drop_last() == line);
        assert(s.last() == c);
        assert(pieces(s, c) == seq![line].push(Seq::<char>::empty()));
        assert(rest == Seq::<char>::empty());
        assert(pieces(rest, c) == seq![Seq::<char>::empty()]);
        assert(seq![line].push(Seq::<char>::empty()) == seq![line] + pieces(rest, c));
    }
}

/// The lines of a text: what stands before a line feed is the first line, with
/// or without a carriage return before the line feed, and the rest has the
/// other lines. A text without line feeds is one line, if it is anything.
pub proof fn law_lines_end_with_line_feeds(line: Seq<char>, rest: Seq<char>)
    requires
        !line.contains('\n'),
    ensures
        line.len() > 0 ==> lines_of(line) == seq![line],
        lines_of(Seq::empty()) == Seq::<Seq<char>>::empty(),
        line.len() == 0 || line.last() != '\r' ==> lines_of(line.push('\n') + rest) == seq![line]
            + lines_of(rest),
        line.len() > 0 && line.last() == '\r' ==> lines_of(line.push('\n') + rest)
            == seq![line.drop_last()] + lines_of(rest),
{
    let f = |line: Seq<char>| without_return(line);
    lemma_pieces_first(line, '\n', rest);
    lemma_pieces_nonempty(rest, '\n');
    let none = Seq::<char>::empty();
    let all = pieces(line.push('\n') + rest, '\n');
    let tail = pieces(rest, '\n');
    assert(seq![line].drop_last().map_values(f) == Seq::<Seq<char>>::empty());
    assert(Seq::<Seq<char>>::empty().push(line) == seq![line]);
    assert(pieces(none, '\n') == seq![none]);
    assert(seq![none].drop_last().map_values(f) == Seq::<Seq<char>>::empty());
    assert(all.last() == tail.last());
    assert(all.drop_last() == seq![line] + tail.drop_last());
    assert(all.drop_last().map_values(f) == seq![without_return(line)]
        + tail.drop_last().map_values(f));
    assert((seq![without_return(line)] + tail.drop_last().map_values(f)).push(tail.last())
        == seq![without_return(line)] + tail.drop_last().map_values(f).push(tail.last()));
}

/// Two backslashes become one wherever a text without backslashes stands before
/// them; a single one that another character follows, or that is the last, stays.
pub proof fn law_two_backslashes_become_one(front: Seq<char>, back: Seq<char>, other: char)
    requires
        !front.contains('\\'),
        other != '\\',
    ensures
        unescaped(front) == front,
        unescaped(front + seq!['\\']) == front + seq!['\\'],
        unescaped(front + seq!['\\', '\\'] + back) == front + seq!['\\'] + unescaped(back),
        unescaped(front + seq!['\\', other] + back) == front + seq!['\\', other] + unescaped(
            back,
        ),
    decreases front.len(),
{
    let doubled = front + seq!['\\', '\\'] + back;
    let single = front + seq!['\\', other] + back;
    let ended = front + seq!['\\'];
    if front.len() > 0 {
        let rest = front.skip(1);
        assert(front.contains(front[0]));
        assert(!rest.contains('\\')) by {
            if rest.contains('\\') {
                let i = choose|i: int| 0 <= i < rest.len() && rest[i] == '\\';
                assert(front[i + 1] == '\\');
            }
        }
        law_two_backslashes_become_one(rest, back, other);
        assert(doubled[0] == front[0] && single[0] == front[0]);
        assert(doubled.skip(1) == rest + seq!['\\', '\\'] + back);
        assert(single.skip(1) == rest + seq!['\\', other] + back);
        assert(front == seq![front[0]] + rest);
        assert(ended.skip(1) == rest + seq!['\\']);
        assert(unescaped(ended) == ended);
        assert(unescaped(doubled) == front + seq!['\\'] + unescaped(back));
        assert(unescaped(single) == front + seq!['\\', other] + unescaped(back));
    } else {
        assert(ended.skip(1).len() == 0);
        assert(unescaped(ended.skip(1)) == ended.skip(1));
        assert(unescaped(ended) == ended);
        assert(doubled.skip(2) == back);
        assert(single.skip(1) == seq![other] + back);
        assert((seq![other] + back).skip(1) == back);
        assert(unescaped(single) == seq!['\\'] + unescaped(seq![other] + back));
        assert(unescaped(seq![other] + back) == seq![other] + unescaped(back));
        assert(unescaped(doubled) == front + seq!['\\'] + unescaped(back));
        assert(unescaped(single) == front + seq!['\\', other] + unescaped(back));
    }
}

/// One character more is counted just if it is the one that is counted.
pub proof fn law_counting_goes_one_by_one(s: Seq<char>, x: char, c: char)
    ensures
        count_of(Seq::empty(), c) == 0,
        count_of(s.push(x), c) == count_of(s, c) + (if x == c {
            1nat
        } else {
            0
        }),
{
    reveal(Seq::filter);
    assert(s.push(x).drop_last() == s);
}

/// Lowering changes the ASCII capital letters, each into its small letter, and
/// nothing else.
pub proof fn law_lowering_changes_capitals_alone(s: Seq<char>)
    ensures
        lower_text(s).len() == s.len(),
        forall|i: int|
            0 <= i < s.len() ==> (#[trigger] lower_text(s)[i]) as u32 == (if 'A' as u32 <= s[i] as u32
                && s[i] as u32 <= 'Z' as u32 {
                (s[i] as u32 + ('a' as u32 - 'A' as u32)) as u32
            } else {
                s[i] as u32
            }),
{
}

/// Texts stand in the order of the first characters in which they differ; the
/// beginning of a text stands before it.
pub proof fn law_texts_differ_where_they_first_differ(
    same: Seq<char>,
    a: Seq<char>,
    b: Seq<char>,
)
    ensures
        text_le(same, same + a),
        a.len() > 0 ==> !text_le(same + a, same),
        a.len() > 0 && b.len() > 0 && a[0] != b[0] ==> (text_le(same + a, same + b) <==> a[0] < b[0]),
    decreases same.len(),
{
    if same.len() > 0 {
        let rest = same.drop_first();
        law_texts_differ_where_they_first_differ(rest, a, b);
        assert((same + a).drop_first() == rest + a);
        assert((same + b).drop_first() == rest + b);
    } else {
        assert(same + a == a);
        assert(same + b == b);
    }
}

/// A padded text is the text with spaces behind it, as many as it lacks.
pub proof fn law_padding_fills_with_spaces(s: Seq<char>, width: nat)
    ensures
        s.is_prefix_of(padded(s, width)),
        padded(s, width).len() == (if s.len() < width {
            width
        } else {
            s.len()
        }),
        forall|i: int| s.len() <= i < padded(s, width).len() ==> #[trigger] padded(s, width)[i] == ' ',
{
    assert(padded(s, width).subrange(0, s.len() as int) == s);
}

/// White space is just these code points.
pub proof fn law_white_space_by_code_point(c: char)
    ensures
        white_space(c) <==> {
            let n = c as int;
            9 <= n <= 13 || n == 0x20 || n == 0x85 || n == 0xa0 || n == 0x1680 || 0x2000 <= n
                <= 0x200a || n == 0x2028 || n == 0x2029 || n == 0x202f || n == 0x205f || n
                == 0x3000
        },
{
}

/// What is said of strings' characters is said of all of them.
pub proof fn law_strings_are_seen_whole(v: Seq<String>, s: String)
    ensures
        texts(v).len() == v.len(),
        forall|i: int| 0 <= i < v.len() ==> (#[trigger] texts(v)[i]) == v[i]@,
        opt_text(Some(s)) == Some(s@),
        opt_text(None) is None,
{
}

} // verus!
