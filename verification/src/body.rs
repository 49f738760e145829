//! The changelog section of a pull request's text.
//!
//! A section starts below a line that ends in a marker, `:cl:` or the squared CL
//! sign, and runs to the end of the text. Each of its lines is an entry, such as
//! ` * bugfix: Doors close again.`, or says nothing.

use regex::RegexBuilder;
use vstd::prelude::*;
use vstd::string::*;

use crate::entry;
use crate::entry::{ChangelogEntry, ChangelogEntryType};
use crate::text;

verus! {

/// The header of a section, and in its group the text below. Matched with a `.`
/// that takes line feeds too.
pub const HEADER_RE: &'static str = "(?::cl:|\u{1F191}) *\\r?\\n(.+)$";

/// A line with an entry: its keyword, and its description. Matched with anchors
/// that hold at each line.
pub const ENTRY_RE: &'static str =
    "^ *[*-]? *(bugfix|wip|tweak|soundadd|sounddel|rscdel|rscadd|imageadd|imagedel|spellcheck|experiment|tgs): *(\\S[^\\n\\r]+)\\r?$";

/// The words that open a section.
pub open spec fn is_marker(s: Seq<char>) -> bool {
    s == ":cl:"@ || s == seq!['\u{1F191}']
}

/// Spaces only.
pub open spec fn is_blank(s: Seq<char>) -> bool {
    forall|k: int| 0 <= k < s.len() ==> s[k] == ' '
}

/// Nothing, or a carriage return.
pub open spec fn is_optional_cr(s: Seq<char>) -> bool {
    s.len() == 0 || s == seq!['\r']
}

/// Nothing, or the sign of a list item.
pub open spec fn is_bullet(s: Seq<char>) -> bool {
    s.len() == 0 || s == seq!['*'] || s == seq!['-']
}

/// What may follow an entry's keyword: two characters at least, on one line, the
/// first of them no white space.
pub open spec fn is_description(s: Seq<char>) -> bool {
    &&& s.len() >= 2
    &&& !text::is_white_space(s[0])
    &&& forall|k: int| 0 <= k < s.len() ==> s[k] != '\n' && s[k] != '\r'
}

/// The end of a header line: a marker, spaces, a line break.
pub open spec fn header(marker: Seq<char>, blank: Seq<char>, cr: Seq<char>) -> Seq<char> {
    marker + blank + cr + seq!['\n']
}

/// Whether `s` is the end of a header line.
pub open spec fn is_header(s: Seq<char>) -> bool {
    exists|marker: Seq<char>, blank: Seq<char>, cr: Seq<char>|
        {
            &&& s == #[trigger] header(marker, blank, cr)
            &&& is_marker(marker)
            &&& is_blank(blank)
            &&& is_optional_cr(cr)
        }
}

/// Whether a header stands in `body` from `i` up to `j`, with something below it.
pub open spec fn header_at(body: Seq<char>, i: int, j: int) -> bool {
    0 <= i <= j < body.len() && is_header(body.subrange(i, j))
}

/// Whether the first header of `body` stands from `i` up to `j`.
pub open spec fn first_header_at(body: Seq<char>, i: int, j: int) -> bool {
    &&& header_at(body, i, j)
    &&& forall|i2: int, j2: int| 0 <= i2 < i ==> !#[trigger] header_at(body, i2, j2)
}

/// The changelog section of `body`: what stands below its first header.
pub open spec fn section(body: Seq<char>) -> Option<Seq<char>> {
    if exists|i: int, j: int| first_header_at(body, i, j) {
        let (i, j): (int, int) = choose|i: int, j: int| first_header_at(body, i, j);
        Some(body.skip(j))
    } else {
        None
    }
}

/// The lines of `s`, without their line feeds.
pub open spec fn lines(s: Seq<char>) -> Seq<Seq<char>>
    decreases s.len(),
{
    if s.len() == 0 {
        seq![s]
    } else {
        let init = lines(s.drop_last());
        if s.last() == '\n' {
            init.push(Seq::empty())
        } else {
            init.drop_last().push(init.last().push(s.last()))
        }
    }
}

/// A line with an entry, put together from its parts.
pub open spec fn entry_line(
    indent: Seq<char>,
    bullet: Seq<char>,
    gap: Seq<char>,
    keyword: Seq<char>,
    space: Seq<char>,
    description: Seq<char>,
    cr: Seq<char>,
) -> Seq<char> {
    indent + bullet + gap + keyword + seq![':'] + space + description + cr
}

/// Whether the parts are those of a line with an entry.
pub open spec fn are_entry_parts(
    indent: Seq<char>,
    bullet: Seq<char>,
    gap: Seq<char>,
    keyword: Seq<char>,
    space: Seq<char>,
    description: Seq<char>,
    cr: Seq<char>,
) -> bool {
    &&& is_blank(indent)
    &&& is_bullet(bullet)
    &&& is_blank(gap)
    &&& entry::is_keyword(keyword)
    &&& is_blank(space)
    &&& is_description(description)
    &&& is_optional_cr(cr)
}

/// Whether `line` is an entry with this keyword and this description.
pub open spec fn is_entry_line(
    line: Seq<char>,
    keyword: Seq<char>,
    description: Seq<char>,
) -> bool {
    exists|indent: Seq<char>, bullet: Seq<char>, gap: Seq<char>, space: Seq<char>, cr: Seq<char>|
        {
            &&& line == #[trigger] entry_line(
                indent,
                bullet,
                gap,
                keyword,
                space,
                description,
                cr,
            )
            &&& are_entry_parts(indent, bullet, gap, keyword, space, description, cr)
        }
}

/// The keyword and the description of a line, where it is an entry.
pub open spec fn reading(line: Seq<char>) -> Option<(Seq<char>, Seq<char>)> {
    if exists|keyword: Seq<char>, description: Seq<char>|
        is_entry_line(line, keyword, description) {
        Some(
            choose|keyword: Seq<char>, description: Seq<char>|
                is_entry_line(line, keyword, description),
        )
    } else {
        None
    }
}

/// The keywords and descriptions of those lines that are entries, in order.
pub open spec fn readings(lines: Seq<Seq<char>>) -> Seq<(Seq<char>, Seq<char>)>
    decreases lines.len(),
{
    if lines.len() == 0 {
        Seq::empty()
    } else {
        match reading(lines.last()) {
            Some(pair) => readings(lines.drop_last()).push(pair),
            None => readings(lines.drop_last()),
        }
    }
}

/// The entries that keywords and descriptions stand for. A description loses the
/// white space around it.
pub open spec fn entries_of(found: Seq<(Seq<char>, Seq<char>)>) -> Seq<
    (ChangelogEntryType, Seq<char>),
> {
    Seq::new(
        found.len(),
        |k: int| (entry::kind_of_keyword(found[k].0)->0, text::trimmed(found[k].1)),
    )
}

/// The entries of a pull request's text.
pub open spec fn parsed_body(body: Seq<char>) -> Seq<(ChangelogEntryType, Seq<char>)> {
    match section(body) {
        Some(content) => entries_of(readings(lines(content))),
        None => Seq::empty(),
    }
}

/// The texts of a list of pairs.
pub open spec fn pairs(found: Seq<(String, String)>) -> Seq<(Seq<char>, Seq<char>)> {
    Seq::new(found.len(), |k: int| (found[k].0@, found[k].1@))
}

/// Builds the pattern with `RegexBuilder::build` and searches with
/// `Regex::captures`; returns what the first group took.
///
/// The pattern is valid, and a match always sets its group. The search finds the
/// leftmost match. The header pattern has one way to match
/// from a given marker: the spaces, the carriage return if there is one, the line
/// feed, and then, as `.` takes every character here and `$` holds at the end of
/// the text alone, all that follows, which must be one character at least.
#[verifier::external_body]
fn captures(pattern: &str, dot_matches_new_line: bool, haystack: &str) -> (r: Option<String>)
    requires
        pattern@ == HEADER_RE@,
        dot_matches_new_line,
    ensures
        match r {
            Some(group) => exists|i: int, j: int| #[trigger]
                first_header_at(haystack@, i, j) && group@ == haystack@.skip(j),
            None => forall|i: int, j: int| !#[trigger] header_at(haystack@, i, j),
        },
{
    let re = RegexBuilder::new(pattern).dot_matches_new_line(dot_matches_new_line).build().unwrap();
    re.captures(haystack).map(|c| c.get(1).unwrap().as_str().to_owned())
}

/// Builds the pattern with `RegexBuilder::build` and walks the matches of
/// `Regex::captures_iter`; returns what the two groups of each took.
///
/// The pattern is valid, and a match always sets both groups. The iterator yields
/// the successive matches, from left to right. A match of the entry pattern begins
/// at the start of a line and ends at the end of one, and nothing in the pattern
/// takes a line feed (`\S` is a character without the `White_Space` property), so
/// that each line has one match or none: the parts of the pattern are those that
/// `entry_line` puts together.
#[verifier::external_body]
fn captures_iter(pattern: &str, multi_line: bool, haystack: &str) -> (r: Vec<(String, String)>)
    requires
        pattern@ == ENTRY_RE@,
        multi_line,
    ensures
        pairs(r@) == readings(lines(haystack@)),
{
    let re = RegexBuilder::new(pattern).multi_line(multi_line).build().unwrap();
    let group = |c: &regex::Captures, i: usize| c.get(i).unwrap().as_str().to_owned();
    re.captures_iter(haystack).map(|c| (group(&c, 1), group(&c, 2))).collect()
}

/// The entries that keywords and descriptions stand for.
pub fn entries_from_captures(found: &Vec<(String, String)>) -> (r: Vec<ChangelogEntry>)
    requires
        forall|k: int| 0 <= k < found@.len() ==> entry::is_keyword(#[trigger] found@[k].0@),
    ensures
        entry::entries(r@) == entries_of(pairs(found@)),
{
    let mut r: Vec<ChangelogEntry> = Vec::new();
    let mut k: usize = 0;
    while k < found.len()
        invariant
            k <= found@.len(),
            forall|k: int| 0 <= k < found@.len() ==> entry::is_keyword(#[trigger] found@[k].0@),
            entry::entries(r@) == entries_of(pairs(found@)).take(k as int),
        decreases found@.len() - k,
    {
        let kind = ChangelogEntryType::from_keyword(found[k].0.as_str());
        assert(entry::is_keyword(found@[k as int].0@));
        if let Some(kind) = kind {
            let ghost before = r@;
            r.push(ChangelogEntry(kind, text::trim(found[k].1.as_str())));
            assert(entry::entries(r@) =~= entry::entries(before).push(r@.last()@));
            assert(entries_of(pairs(found@)).take(k + 1) =~= entries_of(pairs(found@)).take(
                k as int,
            ).push(entries_of(pairs(found@))[k as int]));
        }
        k += 1;
    }
    assert(entries_of(pairs(found@)).take(k as int) =~= entries_of(pairs(found@)));
    r
}

/// The entries of a pull request's text.
pub fn parse_body_changelog(body: &str) -> (r: Vec<ChangelogEntry>)
    ensures
        entry::entries(r@) == parsed_body(body@),
{
    let content = match captures(HEADER_RE, true, body) {
        Some(content) => content,
        None => {
            return Vec::new();
        },
    };
    proof {
        let (i, j) = choose|i: int, j: int| #[trigger]
            first_header_at(body@, i, j) && content@ == body@.skip(j);
        lemma_first_header(body@, i, j);
    }
    let found = captures_iter(ENTRY_RE, true, content.as_str());
    proof {
        assert forall|k: int| 0 <= k < found@.len() implies entry::is_keyword(
            #[trigger] found@[k].0@,
        ) by {
            lemma_readings_are_entries(lines(content@), k);
            assert(pairs(found@)[k] == readings(lines(content@))[k]);
        }
    }
    entries_from_captures(&found)
}

/// The parts of a header.
pub(crate) proof fn lemma_header_parts(s: Seq<char>) -> (parts: (Seq<char>, Seq<char>, Seq<char>))
    requires
        is_header(s),
    ensures
        s == header(parts.0, parts.1, parts.2),
        is_marker(parts.0),
        is_blank(parts.1),
        is_optional_cr(parts.2),
{
    choose|marker: Seq<char>, blank: Seq<char>, cr: Seq<char>|
        {
            &&& s == #[trigger] header(marker, blank, cr)
            &&& is_marker(marker)
            &&& is_blank(blank)
            &&& is_optional_cr(cr)
        }
}

/// The parts of a line with an entry, besides its keyword and its description: the
/// indent, the bullet, the gap, the space before the description, the carriage
/// return.
pub(crate) proof fn lemma_entry_parts(line: Seq<char>, keyword: Seq<char>, description: Seq<char>) -> (parts: (
    Seq<char>,
    Seq<char>,
    Seq<char>,
    Seq<char>,
    Seq<char>,
))
    requires
        is_entry_line(line, keyword, description),
    ensures
        line == entry_line(parts.0, parts.1, parts.2, keyword, parts.3, description, parts.4),
        are_entry_parts(parts.0, parts.1, parts.2, keyword, parts.3, description, parts.4),
{
    choose|indent: Seq<char>, bullet: Seq<char>, gap: Seq<char>, space: Seq<char>, cr: Seq<char>|
        {
            &&& line == #[trigger] entry_line(
                indent,
                bullet,
                gap,
                keyword,
                space,
                description,
                cr,
            )
            &&& are_entry_parts(indent, bullet, gap, keyword, space, description, cr)
        }
}

pub(crate) proof fn lemma_header_line_feed(s: Seq<char>)
    requires
        is_header(s),
    ensures
        s.len() > 0,
        s.last() == '\n',
        forall|k: int| 0 <= k < s.len() - 1 ==> s[k] != '\n',
{
    reveal_strlit(":cl:");
    let (marker, blank, cr) = lemma_header_parts(s);
    let head = marker + blank + cr;
    assert forall|k: int| 0 <= k < s.len() - 1 implies s[k] != '\n' by {
        assert(s[k] == head[k]);
        if k < marker.len() {
            assert(head[k] == marker[k]);
        } else if k < marker.len() + blank.len() {
            assert(head[k] == blank[k - marker.len()]);
        } else {
            assert(head[k] == cr[k - marker.len() - blank.len()]);
        }
    }
}

/// The first header stands at one place only, and the section is what follows it.
pub(crate) proof fn lemma_first_header(body: Seq<char>, i: int, j: int)
    requires
        first_header_at(body, i, j),
    ensures
        section(body) == Some(body.skip(j)),
{
    let (i2, j2): (int, int) = choose|i: int, j: int| first_header_at(body, i, j);
    assert(first_header_at(body, i2, j2));
    assert(i == i2);
    let a = body.subrange(i, j);
    let b = body.subrange(i, j2);
    lemma_header_line_feed(a);
    lemma_header_line_feed(b);
    if j < j2 {
        assert(b[j - i - 1] == a[j - i - 1]);
    } else if j2 < j {
        assert(a[j2 - i - 1] == b[j2 - i - 1]);
    }
}

pub(crate) proof fn lemma_readings_are_entries(lines: Seq<Seq<char>>, k: int)
    requires
        0 <= k < readings(lines).len(),
    ensures
        entry::is_keyword(readings(lines)[k].0),
        is_description(readings(lines)[k].1),
    decreases lines.len(),
{
    let rest = readings(lines.drop_last());
    if k < rest.len() {
        lemma_readings_are_entries(lines.drop_last(), k);
    } else {
        let pair = reading(lines.last())->0;
        assert(is_entry_line(lines.last(), pair.0, pair.1));
    }
}

pub(crate) proof fn lemma_entry_layout(
    indent: Seq<char>,
    bullet: Seq<char>,
    gap: Seq<char>,
    keyword: Seq<char>,
    space: Seq<char>,
    description: Seq<char>,
    cr: Seq<char>,
)
    requires
        are_entry_parts(indent, bullet, gap, keyword, space, description, cr),
    ensures
        ({
            let line = entry_line(indent, bullet, gap, keyword, space, description, cr);
            let a = (indent + bullet + gap).len() as int;
            let b = a + keyword.len();
            let c = b + 1 + space.len();
            let d = c + description.len();
            &&& keyword.len() > 0
            &&& description.len() > 0
            &&& line.len() == d + cr.len()
            &&& forall|k: int| 0 <= k < a ==> !('a' <= #[trigger] line[k] <= 'z')
            &&& forall|k: int| a <= k < b ==> 'a' <= #[trigger] line[k] <= 'z'
            &&& line[b] == ':'
            &&& forall|k: int| b < k < c ==> #[trigger] line[k] == ' '
            &&& line[c] != ' '
            &&& line[d - 1] != '\r'
            &&& cr.len() > 0 ==> cr.len() == 1 && line.last() == '\r'
            &&& keyword == line.subrange(a, b)
            &&& description == line.subrange(c, d)
        }),
{
    entry::lemma_keyword_letters(keyword);
    let line = entry_line(indent, bullet, gap, keyword, space, description, cr);
    let front = indent + bullet + gap;
    let a = front.len() as int;
    let b = a + keyword.len();
    let c = b + 1 + space.len();
    let d = c + description.len();
    assert forall|k: int| 0 <= k < a implies !('a' <= #[trigger] line[k] <= 'z') by {
        assert(line[k] == front[k]);
        if k < indent.len() {
            assert(front[k] == indent[k]);
        } else if k < indent.len() + bullet.len() {
            assert(front[k] == bullet[k - indent.len()]);
        } else {
            assert(front[k] == gap[k - indent.len() - bullet.len()]);
        }
    }
    assert forall|k: int| a <= k < b implies 'a' <= #[trigger] line[k] <= 'z' by {
        assert(line[k] == keyword[k - a]);
    }
    assert forall|k: int| b < k < c implies #[trigger] line[k] == ' ' by {
        assert(line[k] == space[k - b - 1]);
    }
    assert(line[c] == description[0]);
    assert(line[d - 1] == description[description.len() - 1]);
    assert(keyword =~= line.subrange(a, b));
    assert(description =~= line.subrange(c, d));
}

/// A line is an entry in one way only.
pub proof fn law_entry_line_has_one_reading(
    line: Seq<char>,
    keyword1: Seq<char>,
    description1: Seq<char>,
    keyword2: Seq<char>,
    description2: Seq<char>,
)
    requires
        is_entry_line(line, keyword1, description1),
        is_entry_line(line, keyword2, description2),
    ensures
        keyword1 == keyword2,
        description1 == description2,
{
    let (i1, u1, g1, s1, r1) = lemma_entry_parts(line, keyword1, description1);
    let (i2, u2, g2, s2, r2) = lemma_entry_parts(line, keyword2, description2);
    lemma_entry_layout(i1, u1, g1, keyword1, s1, description1, r1);
    lemma_entry_layout(i2, u2, g2, keyword2, s2, description2, r2);
    let a1 = (i1 + u1 + g1).len() as int;
    let a2 = (i2 + u2 + g2).len() as int;
    let b1 = a1 + keyword1.len();
    let b2 = a2 + keyword2.len();
    let c1 = b1 + 1 + s1.len();
    let c2 = b2 + 1 + s2.len();
    assert(a1 == a2) by {
        if a1 < a2 {
            assert('a' <= line[a1] <= 'z');
        } else if a2 < a1 {
            assert('a' <= line[a2] <= 'z');
        }
    }
    assert(b1 == b2) by {
        if b1 < b2 {
            assert('a' <= line[b1] <= 'z');
        } else if b2 < b1 {
            assert('a' <= line[b2] <= 'z');
        }
    }
    assert(c1 == c2) by {
        if c1 < c2 {
            assert(line[c1] == ' ');
        } else if c2 < c1 {
            assert(line[c2] == ' ');
        }
    }
}

/// A line that is put together from the parts of an entry is read as that entry.
pub proof fn law_entry_line_is_read(
    indent: Seq<char>,
    bullet: Seq<char>,
    gap: Seq<char>,
    keyword: Seq<char>,
    space: Seq<char>,
    description: Seq<char>,
    cr: Seq<char>,
)
    requires
        are_entry_parts(indent, bullet, gap, keyword, space, description, cr),
    ensures
        reading(entry_line(indent, bullet, gap, keyword, space, description, cr)) == Some(
            (keyword, description),
        ),
{
    let line = entry_line(indent, bullet, gap, keyword, space, description, cr);
    assert(is_entry_line(line, keyword, description));
    let (keyword2, description2) = choose|keyword: Seq<char>, description: Seq<char>|
        is_entry_line(line, keyword, description);
    law_entry_line_has_one_reading(line, keyword, description, keyword2, description2);
}

/// A line that ends in a carriage return is read as the line without it.
pub proof fn law_carriage_return_is_ignored(line: Seq<char>)
    requires
        line.len() > 0 ==> line.last() != '\r',
    ensures
        reading(line.push('\r')) == reading(line),
{
    let long = line.push('\r');
    if reading(line) is Some {
        let (keyword, description) = reading(line)->0;
        assert(is_entry_line(line, keyword, description));
        let (indent, bullet, gap, space, cr) = lemma_entry_parts(line, keyword, description);
        lemma_entry_layout(indent, bullet, gap, keyword, space, description, cr);
        assert(long =~= entry_line(
            indent,
            bullet,
            gap,
            keyword,
            space,
            description,
            seq!['\r'],
        ));
        law_entry_line_is_read(indent, bullet, gap, keyword, space, description, seq!['\r']);
    } else if reading(long) is Some {
        let (keyword, description) = reading(long)->0;
        assert(is_entry_line(long, keyword, description));
        let (indent, bullet, gap, space, cr) = lemma_entry_parts(long, keyword, description);
        lemma_entry_layout(indent, bullet, gap, keyword, space, description, cr);
        let none = Seq::<char>::empty();
        let short = entry_line(indent, bullet, gap, keyword, space, description, none);
        assert(long.last() == '\r');
        assert(cr.len() == 1);
        assert(long =~= short + cr);
        assert(line =~= short) by {
            assert forall|k: int| 0 <= k < line.len() implies line[k] == short[k] by {
                assert(long[k] == line[k]);
                assert((short + cr)[k] == short[k]);
            }
        }
        assert(is_entry_line(line, keyword, description));
    }
}

/// Lines are read each for itself: the entries of a text are those of its first
/// lines, followed by those of the others.
pub proof fn law_lines_are_read_independently(a: Seq<Seq<char>>, b: Seq<Seq<char>>)
    ensures
        readings(a + b) == readings(a) + readings(b),
    decreases b.len(),
{
    if b.len() == 0 {
        assert(a + b =~= a);
        assert(readings(a) + readings(b) =~= readings(a));
    } else {
        law_lines_are_read_independently(a, b.drop_last());
        assert((a + b).drop_last() =~= a + b.drop_last());
        assert((a + b).last() == b.last());
        assert(readings(a + b) =~= readings(a) + readings(b));
    }
}

/// A text has a section exactly where it has a header with something below it.
pub proof fn law_section_needs_a_header(body: Seq<char>)
    ensures
        section(body) is Some <==> exists|i: int, j: int| header_at(body, i, j),
{
    if exists|i: int, j: int| header_at(body, i, j) {
        let (i, j): (int, int) = choose|i: int, j: int| header_at(body, i, j);
        lemma_some_header_is_first(body, i, j);
    }
}

proof fn lemma_some_header_is_first(body: Seq<char>, i: int, j: int)
    requires
        header_at(body, i, j),
    ensures
        exists|i2: int, j2: int| first_header_at(body, i2, j2),
    decreases i,
{
    if exists|i2: int, j2: int| 0 <= i2 < i && #[trigger] header_at(body, i2, j2) {
        let (i2, j2): (int, int) = choose|i2: int, j2: int|
            0 <= i2 < i && #[trigger] header_at(body, i2, j2);
        lemma_some_header_is_first(body, i2, j2);
    } else {
        assert(first_header_at(body, i, j));
    }
}

/// The section is what stands below the first header, whatever comes before it
/// and whichever line break ends it.
pub proof fn law_section_is_below_the_header(
    before: Seq<char>,
    marker: Seq<char>,
    blank: Seq<char>,
    cr: Seq<char>,
    content: Seq<char>,
)
    requires
        is_marker(marker),
        is_blank(blank),
        is_optional_cr(cr),
        content.len() > 0,
        forall|i: int, j: int|
            0 <= i < before.len() ==> !#[trigger] header_at(
                before + header(marker, blank, cr) + content,
                i,
                j,
            ),
    ensures
        section(before + header(marker, blank, cr) + content) == Some(content),
{
    let h = header(marker, blank, cr);
    let body = before + h + content;
    let i = before.len() as int;
    let j = i + h.len();
    assert(body.subrange(i, j) =~= h);
    assert(is_header(h));
    assert(header_at(body, i, j));
    assert(first_header_at(body, i, j));
    lemma_first_header(body, i, j);
    assert(body.skip(j) =~= content);
}

/// A text without a marker has no entries.
pub proof fn law_no_marker_no_entries(body: Seq<char>)
    requires
        forall|i: int, j: int|
            0 <= i <= j <= body.len() ==> !is_marker(#[trigger] body.subrange(i, j)),
    ensures
        parsed_body(body) == Seq::<(ChangelogEntryType, Seq<char>)>::empty(),
{
    law_section_needs_a_header(body);
    assert forall|i: int, j: int| !header_at(body, i, j) by {
        if header_at(body, i, j) {
            let s = body.subrange(i, j);
            let (marker, blank, cr) = lemma_header_parts(s);
            assert(s.len() == marker.len() + blank.len() + cr.len() + 1);
            assert(s.take(marker.len() as int) =~= marker);
            assert(body.subrange(i, i + marker.len()) =~= s.take(marker.len() as int));
        }
    }
}

/// The description of an entry is not empty, neither begins nor ends in white
/// space, and stands on one line.
pub proof fn law_descriptions_are_trimmed(body: Seq<char>, k: int)
    requires
        0 <= k < parsed_body(body).len(),
    ensures
        ({
            let description = parsed_body(body)[k].1;
            &&& description.len() > 0
            &&& !text::is_white_space(description.first())
            &&& !text::is_white_space(description.last())
            &&& forall|m: int| #![trigger description[m]]
                0 <= m < description.len() ==> description[m] != '\n' && description[m] != '\r'
        }),
{
    let found = readings(lines(section(body)->0));
    lemma_readings_are_entries(lines(section(body)->0), k);
    let raw = found[k].1;
    text::lemma_trimmed_end(raw);
    assert(text::trimmed(raw) == text::trimmed_end(raw));
}

/// A text has no more entries than its section has lines.
pub proof fn law_at_most_one_entry_a_line(lines: Seq<Seq<char>>)
    ensures
        readings(lines).len() <= lines.len(),
    decreases lines.len(),
{
    if lines.len() > 0 {
        law_at_most_one_entry_a_line(lines.drop_last());
    }
}

/// A text without a line feed is one line, and the lines of two texts with a line
/// feed between them are the lines of the first, followed by those of the second.
pub proof fn law_line_feeds_part_lines(a: Seq<char>, b: Seq<char>)
    ensures
        !a.contains('\n') ==> lines(a) == seq![a],
        lines(a + seq!['\n'] + b) == lines(a) + lines(b),
    decreases a.len() + b.len(),
{
    let none = Seq::<char>::empty();
    if a.len() > 0 {
        law_line_feeds_part_lines(a.drop_last(), none);
        if !a.contains('\n') {
            assert(a.contains(a.last()));
            assert forall|k: int| 0 <= k < a.len() - 1 implies a.drop_last()[k] != '\n' by {
                assert(a.contains(a[k]));
            }
            assert(a.drop_last().push(a.last()) =~= a);
            assert(lines(a) =~= seq![a]);
        }
    }
    let s = a + seq!['\n'] + b;
    if b.len() == 0 {
        assert(s.drop_last() =~= a);
        assert(b =~= none);
        assert(lines(s) =~= lines(a) + lines(b));
    } else {
        let front = b.drop_last();
        law_line_feeds_part_lines(a, front);
        lemma_there_is_a_line(front);
        assert(s.drop_last() =~= a + seq!['\n'] + front);
        assert(s.last() == b.last());
        assert(lines(s) =~= lines(a) + lines(b));
    }
}

pub(crate) proof fn lemma_there_is_a_line(s: Seq<char>)
    ensures
        lines(s).len() > 0,
    decreases s.len(),
{
    if s.len() > 0 {
        lemma_there_is_a_line(s.drop_last());
    }
}

/// The text of the lines, with a line feed between each and the next.
pub open spec fn joined(lines: Seq<Seq<char>>) -> Seq<char>
    decreases lines.len(),
{
    if lines.len() == 0 {
        Seq::empty()
    } else if lines.len() == 1 {
        lines[0]
    } else {
        joined(lines.drop_last()) + seq!['\n'] + lines.last()
    }
}

/// Lines that are joined to a text are the lines of that text.
pub proof fn law_joined_lines_are_found(list: Seq<Seq<char>>)
    requires
        list.len() > 0,
        forall|k: int| 0 <= k < list.len() ==> !(#[trigger] list[k]).contains('\n'),
    ensures
        lines(joined(list)) == list,
    decreases list.len(),
{
    let last = list.last();
    let none = Seq::<char>::empty();
    law_line_feeds_part_lines(last, none);
    if list.len() == 1 {
        assert(list =~= seq![last]);
    } else {
        law_joined_lines_are_found(list.drop_last());
        law_line_feeds_part_lines(joined(list.drop_last()), last);
        assert(list.drop_last() + seq![last] =~= list);
    }
}

/// The entries of a text with a header are those of the lines below it.
pub proof fn law_lines_below_the_header_are_read(
    before: Seq<char>,
    marker: Seq<char>,
    blank: Seq<char>,
    cr: Seq<char>,
    list: Seq<Seq<char>>,
)
    requires
        is_marker(marker),
        is_blank(blank),
        is_optional_cr(cr),
        joined(list).len() > 0,
        forall|k: int| 0 <= k < list.len() ==> !(#[trigger] list[k]).contains('\n'),
        forall|i: int, j: int|
            0 <= i < before.len() ==> !#[trigger] header_at(
                before + header(marker, blank, cr) + joined(list),
                i,
                j,
            ),
    ensures
        parsed_body(before + header(marker, blank, cr) + joined(list)) == entries_of(
            readings(list),
        ),
{
    law_section_is_below_the_header(before, marker, blank, cr, joined(list));
    law_joined_lines_are_found(list);
}

} // verus!
