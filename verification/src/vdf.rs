//! Steam's list of library folders, in Valve's text format for keys and values.
use vstd::prelude::*;

use crate::text::{count, count_of, escaped, law_counting_goes_one_by_one, law_lines_end_with_line_feeds, law_trimming_takes_the_white_space_around, law_unescape_reverses_escape, lemma_lines_total, lemma_pieces_nonempty, lemma_total_len_grows, lemma_trimmed_len, lines, lines_of, opt_text, pieces, split, starts_with, texts, total_len, trim, trimmed, unescape_backslashes, unescaped, white_space, without_end_white};

verus! {

/// The second quoted text of a line: what stands between its third and fourth
/// quotation mark, or behind the third where there is no fourth.
pub open spec fn second_quoted(line: Seq<char>) -> Option<Seq<char>> {
    let parts = pieces(line, '"');
    if parts.len() >= 4 {
        Some(parts[3])
    } else {
        None
    }
}

/// The second quoted text of a line.
pub fn extract_quoted_value(line: &str) -> (r: Option<String>)
    ensures
        opt_text(r) == second_quoted(line@),
{
    let parts = split(line, '"');
    assert(texts(parts@).len() == parts@.len());
    if parts.len() >= 4 {
        assert(texts(parts@)[3] == parts@[3]@);
        Some(parts[3].as_str().to_string())
    } else {
        None
    }
}

/// The line, white space aside, begins the list of library folders.
pub open spec fn opens_list(line: Seq<char>) -> bool {
    "\"libraryfolders\""@.is_prefix_of(trimmed(line))
}

/// The folder that a line, white space aside, names with the word `path`.
pub open spec fn named_folder(line: Seq<char>) -> Option<Seq<char>> {
    if "\"path\""@.is_prefix_of(trimmed(line)) {
        match second_quoted(trimmed(line)) {
            Some(value) => Some(unescaped(value)),
            None => None,
        }
    } else {
        None
    }
}

/// How many more braces a line opens than it closes.
pub open spec fn brace_balance(line: Seq<char>) -> int {
    count_of(trimmed(line), '{') - count_of(trimmed(line), '}')
}

/// The folders that the lines name inside the list, which ends with the line
/// that closes as many braces as were opened since it began. `inside` says
/// whether the list has begun, and `depth` how many braces are open.
pub open spec fn folders_in(lines: Seq<Seq<char>>, inside: bool, depth: int) -> Seq<Seq<char>>
    decreases lines.len(),
{
    if lines.len() == 0 {
        Seq::empty()
    } else if opens_list(lines[0]) {
        folders_in(lines.drop_first(), true, depth)
    } else if !inside {
        folders_in(lines.drop_first(), false, depth)
    } else {
        let open = depth + brace_balance(lines[0]);
        let rest = if open <= 0 {
            Seq::empty()
        } else {
            folders_in(lines.drop_first(), true, open)
        };
        match named_folder(lines[0]) {
            Some(folder) => seq![folder] + rest,
            None => rest,
        }
    }
}

/// The library folders that Steam's list names.
pub open spec fn library_folders(content: Seq<char>) -> Seq<Seq<char>> {
    folders_in(lines_of(content), false, 0)
}

/// The library folders that Steam's list names.
pub fn parse_library_paths(vdf_content: &str) -> (r: Vec<String>)
    ensures
        texts(r@) == library_folders(vdf_content@),
{
    let all = lines(vdf_content);
    let ghost seen = texts(all@);
    let mut paths: Vec<String> = Vec::new();
    let mut inside = false;
    let mut depth: i128 = 0;
    let mut i: usize = 0;
    assert(seen.skip(0) == seen);
    proof {
        lemma_lines_total(vdf_content@);
    }
    while i < all.len()
        invariant
            seen == texts(all@),
            seen == lines_of(vdf_content@),
            i <= all@.len(),
            total_len(seen) <= usize::MAX,
            0 <= depth <= total_len(seen.take(i as int)),
            library_folders(vdf_content@) == texts(paths@) + folders_in(
                seen.skip(i as int),
                inside,
                depth as int,
            ),
        decreases all@.len() - i,
    {
        let ghost left = seen.skip(i as int);
        assert(left[0] == all@[i as int]@);
        assert(left.drop_first() == seen.skip(i + 1));
        proof {
            lemma_total_len_grows(seen, i as int);
            lemma_total_len_grows(seen, i + 1);
            assert(seen.take(i + 1).drop_last() == seen.take(i as int));
            lemma_trimmed_len(left[0]);
            trimmed(left[0]).lemma_filter_len(|x: char| x == '{');
        }
        let line = trim(all[i].as_str());
        if starts_with(line.as_str(), "\"libraryfolders\"") {
            inside = true;
        } else if inside {
            let opened = count(line.as_str(), '{');
            let closed = count(line.as_str(), '}');
            depth = depth + opened as i128 - closed as i128;
            let ghost had = texts(paths@);
            let ghost rest = if depth <= 0 {
                Seq::empty()
            } else {
                folders_in(left.drop_first(), true, depth as int)
            };
            if starts_with(line.as_str(), "\"path\"") {
                if let Some(value) = extract_quoted_value(line.as_str()) {
                    let folder = unescape_backslashes(value.as_str());
                    paths.push(folder);
                    assert(texts(paths@) == had.push(folder@));
                    assert(had + (seq![folder@] + rest) == texts(paths@) + rest);
                }
            }
            assert(library_folders(vdf_content@) == texts(paths@) + rest);
            if depth <= 0 {
                assert(texts(paths@) + Seq::<Seq<char>>::empty() == texts(paths@));
                return paths;
            }
        }
        i += 1;
    }
    assert(seen.skip(i as int).len() == 0);
    assert(texts(paths@) + Seq::<Seq<char>>::empty() == texts(paths@));
    paths
}

/// Text without separators is one piece.
proof fn lemma_one_piece(s: Seq<char>, c: char)
    requires
        !s.contains(c),
    ensures
        pieces(s, c) == seq![s],
    decreases s.len(),
{
    if s.len() > 0 {
        assert(s.last() == s[s.len() - 1]);
        assert forall|x: char| s.drop_last().contains(x) implies s.contains(x) by {
            let i = choose|i: int| 0 <= i < s.drop_last().len() && s.drop_last()[i] == x;
            assert(s[i] == x);
        }
        lemma_one_piece(s.drop_last(), c);
        assert(s.drop_last().push(s.last()) == s);
        assert(seq![s.drop_last()].drop_last().push(s) == seq![s]);
    } else {
        assert(s == Seq::<char>::empty());
    }
}

/// A separator between two texts puts the pieces of one before the pieces of
/// the other.
proof fn lemma_pieces_concat(a: Seq<char>, c: char, b: Seq<char>)
    ensures
        pieces(a.push(c) + b, c) == pieces(a, c) + pieces(b, c),
    decreases b.len(),
{
    let s = a.push(c) + b;
    if b.len() == 0 {
        assert(s == a.push(c));
        assert(s.drop_last() == a);
        assert(pieces(a, c).push(Seq::empty()) == pieces(a, c) + seq![Seq::<char>::empty()]);
    } else {
        lemma_pieces_concat(a, c, b.drop_last());
        lemma_pieces_nonempty(b.drop_last(), c);
        assert(s.drop_last() == a.push(c) + b.drop_last());
        let x = pieces(a, c);
        let y = pieces(b.drop_last(), c);
        if s.last() == c {
            assert((x + y).push(Seq::empty()) == x + y.push(Seq::empty()));
        } else {
            assert((x + y).drop_last().push((x + y).last().push(s.last())) == x
                + y.drop_last().push(y.last().push(b.last())));
        }
    }
}

/// Writing backslashes twice brings in no other character.
proof fn lemma_escaped_keeps_out(s: Seq<char>, c: char)
    requires
        !s.contains(c),
        c != '\\',
    ensures
        !escaped(s).contains(c),
    decreases s.len(),
{
    if s.len() > 0 {
        let rest = s.skip(1);
        assert(!rest.contains(c)) by {
            if rest.contains(c) {
                let i = choose|i: int| 0 <= i < rest.len() && rest[i] == c;
                assert(s[i + 1] == c);
            }
        }
        lemma_escaped_keeps_out(rest, c);
        assert(s[0] != c);
        assert forall|i: int| 0 <= i < escaped(s).len() implies escaped(s)[i] != c by {
            let front = escaped(s).len() - escaped(rest).len();
            if i >= front {
                assert(escaped(s)[i] == escaped(rest)[i - front]);
                assert(escaped(rest).contains(escaped(rest)[i - front]));
            }
        }
    }
}

/// A folder that a line names in quotation marks behind the word `path`, with
/// its backslashes written twice, is read back as it was.
pub proof fn law_named_folder_reads_back(gap: Seq<char>, folder: Seq<char>)
    requires
        !gap.contains('"'),
        !folder.contains('"'),
    ensures
        ({
            let line = "\"path\""@ + gap + seq!['"'] + escaped(folder) + seq!['"'];
            named_folder(line) == Some(folder)
        }),
{
    let line = "\"path\""@ + gap + seq!['"'] + escaped(folder) + seq!['"'];
    reveal_strlit("\"path\"");
    let word = seq!['p', 'a', 't', 'h'];
    let value = escaped(folder);
    let none = Seq::<char>::empty();
    lemma_escaped_keeps_out(folder, '"');
    law_unescape_reverses_escape(folder);
    lemma_one_piece(none, '"');
    lemma_one_piece(word, '"');
    lemma_one_piece(gap, '"');
    lemma_one_piece(value, '"');
    lemma_pieces_concat(none, '"', word);
    lemma_pieces_concat(none.push('"') + word, '"', gap);
    lemma_pieces_concat((none.push('"') + word).push('"') + gap, '"', value);
    lemma_pieces_concat(((none.push('"') + word).push('"') + gap).push('"') + value, '"', none);
    assert(line == (((none.push('"') + word).push('"') + gap).push('"') + value).push('"') + none);
    assert(pieces(line, '"')[3] == value);
    assert(line[0] == '"' && line.last() == '"');
    assert(trimmed(line) == line);
    assert("\"path\""@.is_prefix_of(line)) by {
        assert("\"path\""@ =~= line.subrange(0, 6));
    }
}

// ---------------------------------------------------------------------------
// Which folders are read
// ---------------------------------------------------------------------------

/// How many more braces the lines open than they close. Lines that begin the
/// list anew do not count.
pub open spec fn braces_open(lines: Seq<Seq<char>>) -> int
    decreases lines.len(),
{
    if lines.len() == 0 {
        0
    } else {
        let last = lines.last();
        braces_open(lines.drop_last()) + (if "\"libraryfolders\""@.is_prefix_of(trimmed(last)) {
            0
        } else {
            count_of(last, '{') - count_of(last, '}')
        })
    }
}

/// No line ends the list: behind each one that does not begin it anew, more
/// braces were opened than closed.
pub open spec fn list_goes_on(lines: Seq<Seq<char>>) -> bool {
    forall|k: int|
        0 <= k < lines.len() && !"\"libraryfolders\""@.is_prefix_of(trimmed(#[trigger] lines[k]))
            ==> braces_open(lines.take(k + 1)) > 0
}

proof fn lemma_count_behind_first(first: char, s: Seq<char>, c: char)
    requires
        first != c,
    ensures
        count_of(seq![first] + s, c) == count_of(s, c),
    decreases s.len(),
{
    let all = seq![first] + s;
    if s.len() > 0 {
        lemma_count_behind_first(first, s.drop_last(), c);
        assert(all == (seq![first] + s.drop_last()).push(s.last()));
        assert(s == s.drop_last().push(s.last()));
        law_counting_goes_one_by_one(seq![first] + s.drop_last(), s.last(), c);
        law_counting_goes_one_by_one(s.drop_last(), s.last(), c);
    } else {
        let none = Seq::<char>::empty();
        assert(s == none);
        assert(all == none.push(first));
        law_counting_goes_one_by_one(none, first, c);
    }
}

/// Trimming takes no braces away.
proof fn lemma_trimming_keeps_braces(s: Seq<char>, c: char)
    requires
        c == '{' || c == '}',
    ensures
        count_of(trimmed(s), c) == count_of(s, c),
    decreases s.len(),
{
    if s.len() > 0 && white_space(s[0]) {
        lemma_trimming_keeps_braces(s.drop_first(), c);
        assert(s == seq![s[0]] + s.drop_first());
        lemma_count_behind_first(s[0], s.drop_first(), c);
    } else {
        lemma_end_keeps_braces(s, c);
    }
}

proof fn lemma_end_keeps_braces(s: Seq<char>, c: char)
    requires
        c == '{' || c == '}',
    ensures
        count_of(without_end_white(s), c) == count_of(s, c),
    decreases s.len(),
{
    if s.len() > 0 && white_space(s.last()) {
        lemma_end_keeps_braces(s.drop_last(), c);
        law_counting_goes_one_by_one(s.drop_last(), s.last(), c);
        assert(s == s.drop_last().push(s.last()));
    }
}

/// Lines before the list begins name no folders.
proof fn lemma_before_the_list(pre: Seq<Seq<char>>, rest: Seq<Seq<char>>)
    requires
        forall|i: int| 0 <= i < pre.len() ==> !opens_list(#[trigger] pre[i]),
    ensures
        folders_in(pre + rest, false, 0) == folders_in(rest, false, 0),
    decreases pre.len(),
{
    let all = pre + rest;
    if pre.len() > 0 {
        assert(all[0] == pre[0]);
        assert(all.drop_first() == pre.drop_first() + rest);
        assert forall|i: int| 0 <= i < pre.drop_first().len() implies !opens_list(
            #[trigger] pre.drop_first()[i],
        ) by {
            assert(pre.drop_first()[i] == pre[i + 1]);
        }
        lemma_before_the_list(pre.drop_first(), rest);
    } else {
        assert(all == rest);
    }
}

/// The folder that a line adds to those read.
pub open spec fn adds(line: Seq<char>) -> Seq<Seq<char>> {
    if "\"libraryfolders\""@.is_prefix_of(trimmed(line)) {
        Seq::empty()
    } else {
        match named_folder(line) {
            Some(folder) => seq![folder],
            None => Seq::empty(),
        }
    }
}

proof fn lemma_braces_after(first: Seq<char>, rest: Seq<Seq<char>>)
    ensures
        braces_open(seq![first] + rest) == braces_open(seq![first]) + braces_open(rest),
    decreases rest.len(),
{
    let all = seq![first] + rest;
    if rest.len() > 0 {
        lemma_braces_after(first, rest.drop_last());
        assert(all.drop_last() == seq![first] + rest.drop_last());
        assert(all.last() == rest.last());
    } else {
        assert(all == seq![first]);
    }
}

/// No line ends the list that goes on with so many braces open.
spec fn live(body: Seq<Seq<char>>, depth: int) -> bool {
    forall|k: int|
        0 <= k < body.len() && !opens_list(#[trigger] body[k]) ==> depth + braces_open(
            body.take(k + 1),
        ) > 0
}

/// What one line more brings, from some depth on.
proof fn lemma_one_more(body: Seq<Seq<char>>, line: Seq<char>, depth: int)
    ensures
        folders_in(body.push(line), true, depth) == folders_in(body, true, depth) + (if live(
            body,
            depth,
        ) {
            adds(line)
        } else {
            Seq::empty()
        }),
    decreases body.len(),
{
    let none = Seq::<Seq<char>>::empty();
    let all = body.push(line);
    if body.len() == 0 {
        assert(all.drop_first() == none);
        assert(all[0] == line);
        assert(folders_in(body, true, depth) == none);
        assert(none + adds(line) == adds(line));
        if let Some(folder) = named_folder(line) {
            assert(seq![folder] + none == seq![folder]);
        }
        assert(folders_in(all.drop_first(), true, depth) == none);
        assert(folders_in(all.drop_first(), true, depth + brace_balance(line)) == none);
        assert(folders_in(all, true, depth) == adds(line));
    } else {
        let first = body[0];
        let rest = body.drop_first();
        assert(all[0] == first);
        assert(all.drop_first() == rest.push(line));
        assert(braces_open(seq![first]) == (if opens_list(first) {
            0
        } else {
            brace_balance(first)
        })) by {
            lemma_trimming_keeps_braces(first, '{');
            lemma_trimming_keeps_braces(first, '}');
            assert(seq![first].drop_last() == none);
            reveal_with_fuel(braces_open, 2);
        }
        let open = if opens_list(first) {
            depth
        } else {
            depth + brace_balance(first)
        };
        lemma_one_more(rest, line, open);
        assert forall|k: int| 0 <= k < rest.len() implies #[trigger] body.take(k + 2) == seq![first]
            + rest.take(k + 1) by {
            assert(body.take(k + 2) =~= seq![first] + rest.take(k + 1));
        }
        assert forall|k: int| 0 <= k < rest.len() implies depth + braces_open(
            #[trigger] body.take(k + 2),
        ) == open + braces_open(rest.take(k + 1)) by {
            lemma_braces_after(first, rest.take(k + 1));
        }
        assert(body.take(1) == seq![first]);
        assert(live(body, depth) <==> live(rest, open) && (opens_list(first) || open > 0)) by {
            if live(body, depth) {
                assert forall|k: int|
                    0 <= k < rest.len() && !opens_list(#[trigger] rest[k]) implies open
                    + braces_open(rest.take(k + 1)) > 0 by {
                    assert(body[k + 1] == rest[k]);
                    assert(body.take(k + 2) == body.take((k + 1) + 1));
                }
                if !opens_list(first) {
                    assert(!opens_list(body[0]));
                    assert(body.take(0int + 1) == seq![first]);
                }
            }
            if live(rest, open) && (opens_list(first) || open > 0) {
                assert forall|k: int|
                    0 <= k < body.len() && !opens_list(#[trigger] body[k]) implies depth
                    + braces_open(body.take(k + 1)) > 0 by {
                    if k == 0 {
                        assert(body.take(k + 1) == seq![first]);
                    } else {
                        assert(rest[k - 1] == body[k]);
                        assert(body.take((k - 1) + 2) == body.take(k + 1));
                    }
                }
            }
        }
        let more = if live(body, depth) {
            adds(line)
        } else {
            none
        };
        if opens_list(first) {
            assert(folders_in(all, true, depth) == folders_in(body, true, depth) + more);
        } else {
            let tail = folders_in(rest, true, open);
            let own = match named_folder(first) {
                Some(folder) => seq![folder],
                None => none,
            };
            if open > 0 {
                assert(folders_in(body, true, depth) == own + tail);
                assert(folders_in(all, true, depth) == own + (tail + more));
                assert(own + (tail + more) == own + tail + more);
            } else {
                assert(folders_in(body, true, depth) == own + none);
                assert(folders_in(all, true, depth) == own + none);
                assert(own + none + more == own + none);
            }
        }
    }
}

/// Inside the list, a line's folder is among the folders just if no line before
/// it brings the number of braces opened since the list began, less those
/// closed, to zero or below. Nothing before the list counts.
pub proof fn law_folders_are_read_until_the_braces_close(
    pre: Seq<Seq<char>>,
    head: Seq<char>,
    body: Seq<Seq<char>>,
    line: Seq<char>,
)
    requires
        forall|i: int|
            0 <= i < pre.len() ==> !"\"libraryfolders\""@.is_prefix_of(trimmed(#[trigger] pre[i])),
        "\"libraryfolders\""@.is_prefix_of(trimmed(head)),
    ensures
        folders_in(pre, false, 0) == Seq::<Seq<char>>::empty(),
        folders_in(pre.push(head), false, 0) == Seq::<Seq<char>>::empty(),
        folders_in(pre.push(head) + body.push(line), false, 0) == folders_in(
            pre.push(head) + body,
            false,
            0,
        ) + (if list_goes_on(body) {
            adds(line)
        } else {
            Seq::empty()
        }),
{
    let none = Seq::<Seq<char>>::empty();
    assert(pre + none == pre);
    lemma_before_the_list(pre, none);
    assert(pre.push(head) == pre + seq![head]);
    lemma_before_the_list(pre, seq![head]);
    assert(seq![head].drop_first() == none);
    assert(folders_in(none, true, 0) == none);
    assert(folders_in(seq![head], false, 0) == none);
    let shorter = seq![head] + body;
    let longer = seq![head] + body.push(line);
    assert(pre.push(head) + body == pre + shorter);
    assert(pre.push(head) + body.push(line) == pre + longer);
    lemma_before_the_list(pre, shorter);
    lemma_before_the_list(pre, longer);
    assert(shorter.drop_first() == body);
    assert(longer.drop_first() == body.push(line));
    lemma_one_more(body, line, 0);
    assert(live(body, 0) <==> list_goes_on(body));
}

/// A line of a list of library folders: one that names a folder, or another one.
#[verifier::ext_equal]
pub enum ListLine {
    Folder { indent: Seq<char>, gap: Seq<char>, folder: Seq<char> },
    Other(Seq<char>),
}

impl ListLine {
    /// The line as it is written.
    pub open spec fn text(self) -> Seq<char> {
        match self {
            ListLine::Folder { indent, gap, folder } => indent + ("\"path\""@ + gap + seq!['"']
                + escaped(folder) + seq!['"']),
            ListLine::Other(line) => line,
        }
    }

    /// The line is one line; one that names a folder is indented with white
    /// space, and any other one neither names a folder nor begins a list.
    pub open spec fn wf(self) -> bool {
        &&& !self.text().contains('\n')
        &&& !self.text().contains('\r')
        &&& match self {
            ListLine::Folder { indent, gap, folder } => {
                &&& forall|i: int| 0 <= i < indent.len() ==> white_space(#[trigger] indent[i])
                &&& !gap.contains('"')
                &&& !folder.contains('"')
            },
            ListLine::Other(line) => {
                &&& !"\"path\""@.is_prefix_of(trimmed(line))
                &&& !"\"libraryfolders\""@.is_prefix_of(trimmed(line))
            },
        }
    }
}

/// The lines as they are written.
pub open spec fn list_texts(lines: Seq<ListLine>) -> Seq<Seq<char>> {
    lines.map_values(|line: ListLine| line.text())
}

/// The folders that the lines name, in order.
pub open spec fn list_folders(lines: Seq<ListLine>) -> Seq<Seq<char>>
    decreases lines.len(),
{
    if lines.len() == 0 {
        Seq::empty()
    } else {
        match lines.last() {
            ListLine::Folder { indent, gap, folder } => list_folders(lines.drop_last()).push(
                folder,
            ),
            ListLine::Other(_) => list_folders(lines.drop_last()),
        }
    }
}

/// The lines, each with a line feed behind it.
pub open spec fn written(lines: Seq<Seq<char>>) -> Seq<char>
    decreases lines.len(),
{
    if lines.len() == 0 {
        Seq::empty()
    } else {
        lines[0].push('\n') + written(lines.drop_first())
    }
}

proof fn lemma_written_lines(lines: Seq<Seq<char>>)
    requires
        forall|i: int|
            0 <= i < lines.len() ==> !(#[trigger] lines[i]).contains('\n') && !lines[i].contains(
                '\r',
            ),
    ensures
        lines_of(written(lines)) == lines,
    decreases lines.len(),
{
    if lines.len() > 0 {
        let first = lines[0];
        let rest = lines.drop_first();
        assert forall|i: int| 0 <= i < rest.len() implies !(#[trigger] rest[i]).contains('\n')
            && !rest[i].contains('\r') by {
            assert(rest[i] == lines[i + 1]);
        }
        lemma_written_lines(rest);
        if first.len() > 0 {
            assert(first.contains(first[first.len() - 1]));
        }
        law_lines_end_with_line_feeds(first, written(rest));
        assert(seq![first] + rest == lines);
    } else {
        law_lines_end_with_line_feeds(Seq::empty(), Seq::empty());
        assert(lines == Seq::<Seq<char>>::empty());
    }
}

/// What a line of a list adds.
proof fn lemma_line_adds(line: ListLine)
    requires
        line.wf(),
    ensures
        !opens_list(line.text()),
        adds(line.text()) == (match line {
            ListLine::Folder { indent, gap, folder } => seq![folder],
            ListLine::Other(_) => Seq::empty(),
        }),
{
    reveal_strlit("\"path\"");
    reveal_strlit("\"libraryfolders\"");
    match line {
        ListLine::Folder { indent, gap, folder } => {
            let core = "\"path\""@ + gap + seq!['"'] + escaped(folder) + seq!['"'];
            let none = Seq::<char>::empty();
            assert(core[0] == '"' && core.last() == '"');
            law_trimming_takes_the_white_space_around(indent, core, none);
            law_trimming_takes_the_white_space_around(none, core, none);
            assert(indent + core + none == line.text());
            assert(none + core + none == core);
            law_named_folder_reads_back(gap, folder);
            assert(named_folder(line.text()) == named_folder(core));
            assert(core[1] == 'p');
            assert("\"libraryfolders\""@[1] == 'l');
            assert(!"\"libraryfolders\""@.is_prefix_of(core)) by {
                if "\"libraryfolders\""@.is_prefix_of(core) {
                    assert(core.subrange(0, "\"libraryfolders\""@.len() as int)[1] == core[1]);
                }
            }
        },
        ListLine::Other(text) => {},
    }
}

proof fn lemma_list_is_read(lines: Seq<ListLine>, head: Seq<char>, brace: Seq<char>)
    requires
        forall|i: int| 0 <= i < lines.len() ==> (#[trigger] lines[i]).wf(),
        opens_list(head),
        !opens_list(brace),
        named_folder(brace) is None,
        list_goes_on(seq![brace] + list_texts(lines)),
    ensures
        folders_in(seq![head, brace] + list_texts(lines), false, 0) == list_folders(lines),
    decreases lines.len(),
{
    let pre = Seq::<Seq<char>>::empty();
    let none = Seq::<Seq<char>>::empty();
    let texts = list_texts(lines);
    assert(pre.push(head) == seq![head]);
    if lines.len() == 0 {
        law_folders_are_read_until_the_braces_close(pre, head, none, brace);
        assert(seq![head, brace] + texts == pre.push(head) + none.push(brace));
        assert(pre.push(head) + none == seq![head]);
        assert(list_goes_on(none));
        assert(adds(brace) == none);
    } else {
        let front = lines.drop_last();
        let body = seq![brace] + list_texts(front);
        let last = lines.last();
        let whole = seq![brace] + texts;
        assert(lines[lines.len() - 1].wf());
        assert forall|i: int| 0 <= i < front.len() implies (#[trigger] front[i]).wf() by {
            assert(front[i] == lines[i]);
        }
        assert(whole == body.push(last.text()));
        assert(list_goes_on(body)) by {
            assert forall|k: int|
                0 <= k < body.len() && !"\"libraryfolders\""@.is_prefix_of(
                    trimmed(#[trigger] body[k]),
                ) implies braces_open(body.take(k + 1)) > 0 by {
                assert(whole[k] == body[k]);
                assert(whole.take(k + 1) == body.take(k + 1));
            }
        }
        lemma_list_is_read(front, head, brace);
        law_folders_are_read_until_the_braces_close(pre, head, body, last.text());
        assert(seq![head, brace] + texts == pre.push(head) + body.push(last.text()));
        assert(seq![head, brace] + list_texts(front) == pre.push(head) + body);
        lemma_line_adds(last);
        if let ListLine::Folder { indent, gap, folder } = last {
            assert(list_folders(front) + seq![folder] == list_folders(front).push(folder));
        } else {
            assert(list_folders(front) + none == list_folders(front));
        }
    }
}

/// Of a list, the folders of all its library blocks are read, in order, however
/// many blocks it has and whatever blocks they hold: as long as the braces of
/// its lines do not close more than they opened, the list goes on to the brace
/// that closes it. What stands behind that brace is not read.
pub proof fn law_every_library_of_the_list_is_read(
    lines: Seq<ListLine>,
    behind: Seq<ListLine>,
)
    requires
        forall|i: int| 0 <= i < lines.len() ==> (#[trigger] lines[i]).wf(),
        forall|i: int| 0 <= i < behind.len() ==> (#[trigger] behind[i]).wf(),
        forall|k: int|
            0 <= k <= lines.len() ==> braces_open(#[trigger] list_texts(lines).take(k)) >= 0,
        braces_open(list_texts(lines)) == 0,
    ensures
        library_folders(
            written(
                seq!["\"libraryfolders\""@, seq!['{']] + list_texts(lines) + seq![seq!['}']]
                    + list_texts(behind),
            ),
        ) == list_folders(lines),
{
    let head = "\"libraryfolders\""@;
    let brace = seq!['{'];
    let close = seq!['}'];
    let none = Seq::<char>::empty();
    let texts = list_texts(lines);
    let all = seq![head, brace] + texts + seq![close] + list_texts(behind);
    reveal_strlit("\"libraryfolders\"");
    reveal_strlit("\"path\"");
    law_trimming_takes_the_white_space_around(none, head, none);
    law_trimming_takes_the_white_space_around(none, brace, none);
    law_trimming_takes_the_white_space_around(none, close, none);
    assert(none + head + none == head);
    assert(none + brace + none == brace);
    assert(none + close + none == close);
    assert(head.subrange(0, head.len() as int) == head);
    assert(opens_list(head));
    assert(!opens_list(brace) && !opens_list(close));
    assert(named_folder(brace) is None && named_folder(close) is None);
    assert forall|i: int| 0 <= i < all.len() implies !(#[trigger] all[i]).contains('\n')
        && !all[i].contains('\r') by {
        if i == 0 {
            assert(all[i] == head);
        } else if i == 1 {
            assert(all[i] == brace);
        } else if i < 2 + texts.len() {
            assert(all[i] == lines[i - 2].text());
        } else if i == 2 + texts.len() {
            assert(all[i] == close);
        } else {
            assert(all[i] == behind[i - 3 - texts.len()].text());
        }
    }
    lemma_written_lines(all);
    // The brace behind the head opens one, and the lines leave it open.
    assert(brace == none.push('{') && close == none.push('}'));
    law_counting_goes_one_by_one(none, '{', '{');
    law_counting_goes_one_by_one(none, '{', '}');
    law_counting_goes_one_by_one(none, '}', '{');
    law_counting_goes_one_by_one(none, '}', '}');
    assert(seq![brace].drop_last() == Seq::<Seq<char>>::empty());
    reveal_with_fuel(braces_open, 2);
    assert(braces_open(seq![brace]) == 1);
    let body = seq![brace] + texts;
    assert(list_goes_on(body)) by {
        assert forall|k: int|
            0 <= k < body.len() && !head.is_prefix_of(trimmed(#[trigger] body[k])) implies
            braces_open(body.take(k + 1)) > 0 by {
            assert(body.take(k + 1) == seq![brace] + texts.take(k));
            lemma_braces_after(brace, texts.take(k));
        }
    }
    lemma_list_is_read(lines, head, brace);
    let pre = Seq::<Seq<char>>::empty();
    assert(pre.push(head) == seq![head]);
    assert(seq![head, brace] + texts == pre.push(head) + body);
    law_folders_are_read_until_the_braces_close(pre, head, body, close);
    assert(adds(close) == Seq::<Seq<char>>::empty());
    let closed = body.push(close);
    assert(closed.drop_last() == body);
    lemma_braces_after(brace, texts);
    assert(braces_open(closed) == 0);
    let read = folders_in(pre.push(head) + closed, false, 0);
    assert(read == list_folders(lines) + Seq::<Seq<char>>::empty());
    assert(read == list_folders(lines));
    lemma_nothing_behind(head, closed, list_texts(behind));
    assert(all == pre.push(head) + (closed + list_texts(behind)));
}

/// Behind a line that closes the list nothing is read.
proof fn lemma_nothing_behind(head: Seq<char>, closed: Seq<Seq<char>>, behind: Seq<Seq<char>>)
    requires
        opens_list(head),
        closed.len() > 0,
        !opens_list(closed.last()),
        braces_open(closed) <= 0,
    ensures
        folders_in(Seq::empty().push(head) + (closed + behind), false, 0) == folders_in(
            Seq::empty().push(head) + closed,
            false,
            0,
        ),
    decreases behind.len(),
{
    let pre = Seq::<Seq<char>>::empty();
    if behind.len() > 0 {
        let front = behind.drop_last();
        lemma_nothing_behind(head, closed, front);
        let body = closed + front;
        law_folders_are_read_until_the_braces_close(pre, head, body, behind.last());
        assert(closed + behind == body.push(behind.last()));
        assert(!list_goes_on(body)) by {
            let k = closed.len() - 1;
            assert(body[k] == closed.last());
            assert(body.take(k + 1) == closed);
        }
        assert(pre.push(head) + (closed + behind) == pre.push(head) + body.push(behind.last()));
        let read = folders_in(pre.push(head) + body, false, 0);
        assert(read + Seq::<Seq<char>>::empty() == read);
    } else {
        assert(closed + behind == closed);
    }
}

/// The second quoted text of a line stands between its third quotation mark
/// and its fourth; a line with fewer than three has none.
pub proof fn law_second_quoted_text(
    front: Seq<char>,
    first: Seq<char>,
    gap: Seq<char>,
    second: Seq<char>,
    back: Seq<char>,
)
    requires
        !front.contains('"'),
        !first.contains('"'),
        !gap.contains('"'),
        !second.contains('"'),
    ensures
        second_quoted(front) is None,
        second_quoted(front.push('"') + first) is None,
        second_quoted((front.push('"') + first).push('"') + gap) is None,
        second_quoted(((front.push('"') + first).push('"') + gap).push('"') + second) == Some(
            second,
        ),
        second_quoted(
            (((front.push('"') + first).push('"') + gap).push('"') + second).push('"') + back,
        ) == Some(second),
{
    let one = front.push('"') + first;
    let two = one.push('"') + gap;
    let three = two.push('"') + second;
    lemma_one_piece(front, '"');
    lemma_one_piece(first, '"');
    lemma_one_piece(gap, '"');
    lemma_one_piece(second, '"');
    lemma_pieces_concat(front, '"', first);
    lemma_pieces_concat(one, '"', gap);
    lemma_pieces_concat(two, '"', second);
    lemma_pieces_concat(three, '"', back);
    lemma_pieces_nonempty(back, '"');
}

/// A line names a folder just if, white space aside, it begins with the word `path`
/// in quotation marks and has another quoted text; that text, with each two
/// backslashes for one, is the folder, all of it.
pub proof fn law_folder_is_the_second_quoted_text(line: Seq<char>, value: Seq<char>)
    ensures
        named_folder(line) is Some <==> "\"path\""@.is_prefix_of(trimmed(line)) && second_quoted(
            trimmed(line),
        ) is Some,
        named_folder(line) is Some && second_quoted(trimmed(line)) == Some(value) ==> named_folder(
            line,
        ) == Some(unescaped(value)),
{
}

} // verus!
