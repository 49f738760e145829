//! What holds of a pull request's text as a whole: which line breaks it has makes no
//! difference, entries that are written into it are read back, and an entry says
//! nothing that the text does not.

use vstd::prelude::*;

use crate::body;
use crate::entry;
use crate::entry::ChangelogEntryType;
use crate::text;

verus! {

/// `s` with a carriage return before each line feed.
pub open spec fn with_returns(s: Seq<char>) -> Seq<char>
    decreases s.len(),
{
    if s.len() == 0 {
        s
    } else if s.last() == '\n' {
        with_returns(s.drop_last()) + seq!['\r', '\n']
    } else {
        with_returns(s.drop_last()).push(s.last())
    }
}

/// Whether no line feed of `s` has a carriage return before it.
pub open spec fn has_bare_feeds(s: Seq<char>) -> bool {
    forall|k: int| 0 < k < s.len() && #[trigger] s[k] == '\n' ==> s[k - 1] != '\r'
}

/// The lines, each but the last with a carriage return at its end.
spec fn returned(lines: Seq<Seq<char>>) -> Seq<Seq<char>> {
    Seq::new(
        lines.len(),
        |k: int|
            if k + 1 < lines.len() {
                lines[k].push('\r')
            } else {
                lines[k]
            },
    )
}

/// The lines, each with a carriage return at its end.
spec fn all_returned(lines: Seq<Seq<char>>) -> Seq<Seq<char>> {
    Seq::new(lines.len(), |k: int| lines[k].push('\r'))
}

proof fn lemma_with_returns_concat(a: Seq<char>, b: Seq<char>)
    ensures
        with_returns(a + b) == with_returns(a) + with_returns(b),
    decreases b.len(),
{
    if b.len() == 0 {
        assert(a + b =~= a);
        assert(with_returns(a) + with_returns(b) =~= with_returns(a));
    } else {
        lemma_with_returns_concat(a, b.drop_last());
        assert((a + b).drop_last() =~= a + b.drop_last());
        assert((a + b).last() == b.last());
        assert(with_returns(a + b) =~= with_returns(a) + with_returns(b));
    }
}

/// The text up to `i`, from there to `j`, and from there on.
proof fn lemma_with_returns_parts(s: Seq<char>, i: int, j: int)
    requires
        0 <= i <= j <= s.len(),
    ensures
        with_returns(s) == with_returns(s.take(i)) + with_returns(s.subrange(i, j))
            + with_returns(s.skip(j)),
        with_returns(s.take(j)) == with_returns(s.take(i)) + with_returns(s.subrange(i, j)),
{
    assert(s.take(i) + s.subrange(i, j) =~= s.take(j));
    assert(s.take(j) + s.skip(j) =~= s);
    lemma_with_returns_concat(s.take(i), s.subrange(i, j));
    lemma_with_returns_concat(s.take(j), s.skip(j));
}

proof fn lemma_with_returns_of_one_line(s: Seq<char>)
    requires
        !s.contains('\n'),
    ensures
        with_returns(s) == s,
    decreases s.len(),
{
    if s.len() > 0 {
        assert(s.contains(s.last()));
        assert forall|k: int| 0 <= k < s.len() - 1 implies s.drop_last()[k] != '\n' by {
            assert(s.contains(s[k]));
        }
        lemma_with_returns_of_one_line(s.drop_last());
        assert(s.drop_last().push(s.last()) =~= s);
    }
}

proof fn lemma_with_returns_keeps_line_feeds(s: Seq<char>)
    requires
        s.contains('\n'),
    ensures
        with_returns(s).contains('\n'),
    decreases s.len(),
{
    let long = with_returns(s);
    if s.last() == '\n' {
        assert(long[long.len() - 1] == '\n');
    } else {
        let k = choose|k: int| 0 <= k < s.len() && s[k] == '\n';
        assert(s.drop_last()[k] == '\n');
        lemma_with_returns_keeps_line_feeds(s.drop_last());
        let m = choose|m: int|
            0 <= m < with_returns(s.drop_last()).len() && with_returns(s.drop_last())[m] == '\n';
        assert(long[m] == '\n');
    }
}

proof fn lemma_longer_stays_longer(s: Seq<char>, i: int, j: int)
    requires
        0 <= i <= j <= s.len(),
    ensures
        with_returns(s.take(i)).len() + (j - i) <= with_returns(s.take(j)).len(),
    decreases j - i,
{
    if i < j {
        lemma_longer_stays_longer(s, i, j - 1);
        assert(s.take(j).drop_last() =~= s.take(j - 1));
    }
}

/// Where the character at `p` comes from, if no line break is there.
proof fn lemma_origin(s: Seq<char>, p: int) -> (q: int)
    requires
        0 <= p < with_returns(s).len(),
        with_returns(s)[p] != '\n',
        with_returns(s)[p] != '\r',
    ensures
        0 <= q < s.len(),
        with_returns(s.take(q)).len() == p,
    decreases s.len(),
{
    let front = s.drop_last();
    if p < with_returns(front).len() {
        let q = lemma_origin(front, p);
        assert(front.take(q) =~= s.take(q));
        q
    } else {
        assert(s.take(s.len() - 1) =~= front);
        s.len() - 1
    }
}

/// Where the line feed at `p` comes from.
proof fn lemma_line_feed_origin(s: Seq<char>, p: int) -> (q: int)
    requires
        0 <= p < with_returns(s).len(),
        with_returns(s)[p] == '\n',
    ensures
        0 <= q < s.len(),
        s[q] == '\n',
        with_returns(s.take(q + 1)).len() == p + 1,
    decreases s.len(),
{
    let front = s.drop_last();
    if p < with_returns(front).len() {
        let q = lemma_line_feed_origin(front, p);
        assert(front.take(q + 1) =~= s.take(q + 1));
        q
    } else {
        assert(s.take(s.len() as int) =~= s);
        s.len() - 1
    }
}

/// A header stays one.
#[verifier::rlimit(30)]
proof fn lemma_header_with_returns(s: Seq<char>, i: int, j: int)
    requires
        has_bare_feeds(s),
        body::header_at(s, i, j),
    ensures
        body::header_at(
            with_returns(s),
            with_returns(s.take(i)).len() as int,
            with_returns(s.take(j)).len() as int,
        ),
        with_returns(s).skip(with_returns(s.take(j)).len() as int) == with_returns(s.skip(j)),
{
    reveal_strlit(":cl:");
    let t = s.subrange(i, j);
    let (marker, blank, cr) = body::lemma_header_parts(t);
    assert(cr.len() == 0) by {
        if cr.len() > 0 {
            let k = marker.len() + blank.len();
            assert(t.len() == marker.len() + blank.len() + cr.len() + 1);
            assert((marker + blank + cr)[k as int] == cr[0]);
            assert(t[k as int] == '\r');
            assert(t[k as int] == s[i + k]);
            assert(t[k as int + 1] == s[i + k + 1]);
            assert(s[i + k + 1] == '\n');
        }
    }
    let front = marker + blank;
    assert(t =~= front.push('\n'));
    assert(t.drop_last() =~= front);
    assert(!front.contains('\n')) by {
        if front.contains('\n') {
            let k = choose|k: int| 0 <= k < front.len() && front[k] == '\n';
            if k < marker.len() {
                assert(front[k] == marker[k]);
            } else {
                assert(front[k] == blank[k - marker.len()]);
            }
        }
    }
    lemma_with_returns_of_one_line(front);
    let h = body::header(marker, blank, seq!['\r']);
    assert(with_returns(t) =~= h);
    lemma_with_returns_parts(s, i, j);
    let i2 = with_returns(s.take(i)).len() as int;
    let j2 = with_returns(s.take(j)).len() as int;
    assert(with_returns(s).subrange(i2, j2) =~= h);
    assert(with_returns(s).skip(j2) =~= with_returns(s.skip(j)));
    lemma_longer_stays_longer(s, j, s.len() as int);
    assert(s.take(s.len() as int) =~= s);
}

/// A header comes from one.
#[verifier::rlimit(30)]
proof fn lemma_header_origin(s: Seq<char>, i2: int, j2: int) -> (i: int)
    requires
        has_bare_feeds(s),
        body::header_at(with_returns(s), i2, j2),
    ensures
        0 <= i < s.len(),
        with_returns(s.take(i)).len() == i2,
        exists|j: int| body::header_at(s, i, j),
{
    reveal_strlit(":cl:");
    let long = with_returns(s);
    let h = long.subrange(i2, j2);
    let (marker, blank, cr) = body::lemma_header_parts(h);
    assert(h.len() == marker.len() + blank.len() + cr.len() + 1);
    assert(h[0] == marker[0]);
    assert(long[i2] == h[0]);
    assert(long[j2 - 1] == h[h.len() - 1]);
    let i = lemma_origin(s, i2);
    let q = lemma_line_feed_origin(s, j2 - 1);
    let j = q + 1;
    assert(i < j) by {
        if j <= i {
            lemma_longer_stays_longer(s, j, i);
        }
    }
    assert(j < s.len()) by {
        assert(s.take(s.len() as int) =~= s);
    }
    let t = s.subrange(i, j);
    lemma_with_returns_parts(s, i, j);
    assert(with_returns(t) =~= h);
    let front = t.drop_last();
    assert(t.last() == '\n');
    assert(h =~= with_returns(front) + seq!['\r', '\n']);
    let parts = marker + blank + cr;
    assert(h =~= parts.push('\n'));
    assert(parts =~= with_returns(front).push('\r')) by {
        assert(parts =~= h.drop_last());
    }
    assert(cr.len() == 1) by {
        if cr.len() == 0 {
            assert(parts =~= marker + blank);
            assert(parts.last() == '\r');
            if blank.len() > 0 {
                assert(parts.last() == blank[blank.len() - 1]);
            } else {
                assert(parts =~= marker);
            }
        }
    }
    assert(with_returns(front) =~= marker + blank) by {
        assert(with_returns(front) =~= parts.drop_last());
        assert(parts.drop_last() =~= marker + blank);
    }
    assert(!front.contains('\n')) by {
        if front.contains('\n') {
            lemma_with_returns_keeps_line_feeds(front);
            let k = choose|k: int| 0 <= k < (marker + blank).len() && (marker + blank)[k] == '\n';
            if k < marker.len() {
                assert((marker + blank)[k] == marker[k]);
            } else {
                assert((marker + blank)[k] == blank[k - marker.len()]);
            }
        }
    }
    lemma_with_returns_of_one_line(front);
    let none = Seq::<char>::empty();
    assert(t =~= body::header(marker, blank, none)) by {
        assert(t =~= front.push('\n'));
    }
    assert(body::header_at(s, i, j));
    i
}

proof fn lemma_section_with_returns(s: Seq<char>)
    requires
        has_bare_feeds(s),
    ensures
        match body::section(s) {
            Some(content) => body::section(with_returns(s)) == Some(with_returns(content)),
            None => body::section(with_returns(s)) is None,
        },
{
    let long = with_returns(s);
    body::law_section_needs_a_header(s);
    body::law_section_needs_a_header(long);
    if body::section(s) is Some {
        let (i, j): (int, int) = choose|i: int, j: int| body::first_header_at(s, i, j);
        body::lemma_first_header(s, i, j);
        lemma_header_with_returns(s, i, j);
        let i2 = with_returns(s.take(i)).len() as int;
        let j2 = with_returns(s.take(j)).len() as int;
        assert forall|a: int, b: int| 0 <= a < i2 implies !#[trigger] body::header_at(
            long,
            a,
            b,
        ) by {
            if body::header_at(long, a, b) {
                let q = lemma_header_origin(s, a, b);
                if i <= q {
                    lemma_longer_stays_longer(s, i, q);
                }
            }
        }
        assert(body::first_header_at(long, i2, j2));
        body::lemma_first_header(long, i2, j2);
    } else if body::section(long) is Some {
        let (a, b): (int, int) = choose|i: int, j: int| body::header_at(long, i, j);
        let q = lemma_header_origin(s, a, b);
    }
}

proof fn lemma_lines_with_returns(s: Seq<char>)
    ensures
        body::lines(with_returns(s)) == returned(body::lines(s)),
    decreases s.len(),
{
    if s.len() == 0 {
        assert(body::lines(s) =~= returned(body::lines(s)));
    } else {
        let front = s.drop_last();
        let long = with_returns(front);
        let list = body::lines(front);
        lemma_lines_with_returns(front);
        body::lemma_there_is_a_line(front);
        if s.last() == '\n' {
            let middle = long.push('\r');
            assert(middle.drop_last() =~= long);
            assert(with_returns(s) =~= middle.push('\n'));
            assert(with_returns(s).drop_last() =~= middle);
            assert(body::lines(middle) =~= all_returned(list));
            assert(body::lines(with_returns(s)) =~= returned(body::lines(s)));
        } else {
            assert(with_returns(s).drop_last() =~= long);
            assert(body::lines(with_returns(s)) =~= returned(body::lines(s)));
        }
    }
}

/// Each line is a part of the text.
proof fn lemma_line_is_a_part(s: Seq<char>, k: int) -> (span: (int, int))
    requires
        0 <= k < body::lines(s).len(),
    ensures
        0 <= span.0 <= span.1 <= s.len(),
        body::lines(s)[k] == s.subrange(span.0, span.1),
        k + 1 == body::lines(s).len() ==> span.1 == s.len(),
        k + 1 < body::lines(s).len() ==> span.1 < s.len() && s[span.1] == '\n',
    decreases s.len(),
{
    if s.len() == 0 {
        assert(s =~= s.subrange(0, 0));
        (0, 0)
    } else {
        let front = s.drop_last();
        let list = body::lines(front);
        body::lemma_there_is_a_line(front);
        let n = s.len() as int;
        if s.last() == '\n' && k == list.len() {
            assert(body::lines(s)[k] =~= s.subrange(n, n));
            (n, n)
        } else {
            let (i, j) = lemma_line_is_a_part(front, k);
            assert(front.subrange(i, j) =~= s.subrange(i, j));
            if s.last() != '\n' && k == list.len() - 1 {
                assert(s.subrange(i, j).push(s.last()) =~= s.subrange(i, n));
                (i, n)
            } else {
                (i, j)
            }
        }
    }
}

proof fn lemma_readings_with_returns(list: Seq<Seq<char>>)
    requires
        forall|k: int|
            0 <= k < list.len() && (#[trigger] list[k]).len() > 0 ==> list[k].last() != '\r',
    ensures
        body::readings(all_returned(list)) == body::readings(list),
    decreases list.len(),
{
    if list.len() > 0 {
        let last = list.last();
        assert(last == list[list.len() - 1]);
        body::law_carriage_return_is_ignored(last);
        lemma_readings_with_returns(list.drop_last());
        assert(all_returned(list).drop_last() =~= all_returned(list.drop_last()));
        assert(all_returned(list).last() == last.push('\r'));
    } else {
        assert(all_returned(list) =~= list);
    }
}

/// A text is read alike whether its lines end in a line feed alone or in a carriage
/// return and a line feed.
pub proof fn law_line_breaks_are_read_alike(text: Seq<char>)
    requires
        has_bare_feeds(text),
    ensures
        body::parsed_body(with_returns(text)) == body::parsed_body(text),
{
    lemma_section_with_returns(text);
    if body::section(text) is Some {
        let content = body::section(text)->0;
        let list = body::lines(content);
        let (i, j): (int, int) = choose|i: int, j: int| body::first_header_at(text, i, j);
        assert(content == text.skip(j));
        lemma_lines_with_returns(content);
        body::lemma_there_is_a_line(content);
        let front = list.drop_last();
        assert forall|k: int| 0 <= k < front.len() && (#[trigger] front[k]).len() > 0 implies front[
        k].last() != '\r' by {
            let span = lemma_line_is_a_part(content, k);
            assert(front[k].last() == text[j + span.1 - 1]);
            assert(text[j + span.1] == '\n');
        }
        lemma_readings_with_returns(front);
        assert(returned(list).drop_last() =~= all_returned(front));
        assert(returned(list).last() == list.last());
    }
}

/// How an entry is laid out on its line.
pub struct Layout {
    pub indent: Seq<char>,
    pub bullet: Seq<char>,
    pub gap: Seq<char>,
    pub space: Seq<char>,
    pub cr: Seq<char>,
}

/// The line of an entry.
pub open spec fn written_line(entry: (ChangelogEntryType, Seq<char>), layout: Layout) -> Seq<
    char,
> {
    body::entry_line(
        layout.indent,
        layout.bullet,
        layout.gap,
        entry.0.spec_keyword(),
        layout.space,
        entry.1,
        layout.cr,
    )
}

/// Whether an entry can be written so: its description is one, and the rest is what
/// may stand around it.
pub open spec fn is_writable(entry: (ChangelogEntryType, Seq<char>), layout: Layout) -> bool {
    body::are_entry_parts(
        layout.indent,
        layout.bullet,
        layout.gap,
        entry.0.spec_keyword(),
        layout.space,
        entry.1,
        layout.cr,
    )
}

/// The lines of entries, each laid out in its own way.
pub open spec fn written_lines(
    list: Seq<(ChangelogEntryType, Seq<char>)>,
    layouts: Seq<Layout>,
) -> Seq<Seq<char>> {
    Seq::new(list.len(), |k: int| written_line(list[k], layouts[k]))
}

/// Entries, their descriptions without the white space around them.
pub open spec fn all_trimmed(list: Seq<(ChangelogEntryType, Seq<char>)>) -> Seq<
    (ChangelogEntryType, Seq<char>),
> {
    Seq::new(list.len(), |k: int| (list[k].0, text::trimmed(list[k].1)))
}

/// Entries that are written below a header are read back, all of them and in order,
/// however each is laid out on its line and whatever stands before the header. What
/// is not read back is the white space at the end of a description.
pub proof fn law_written_entries_are_read_back(
    before: Seq<char>,
    marker: Seq<char>,
    blank: Seq<char>,
    cr: Seq<char>,
    list: Seq<(ChangelogEntryType, Seq<char>)>,
    layouts: Seq<Layout>,
)
    requires
        body::is_marker(marker),
        body::is_blank(blank),
        body::is_optional_cr(cr),
        layouts.len() == list.len(),
        forall|k: int| 0 <= k < list.len() ==> is_writable(#[trigger] list[k], layouts[k]),
        forall|i: int, j: int|
            0 <= i < before.len() ==> !#[trigger] body::header_at(
                before + body::header(marker, blank, cr) + body::joined(
                    written_lines(list, layouts),
                ),
                i,
                j,
            ),
    ensures
        ({
            let text = before + body::header(marker, blank, cr) + body::joined(
                written_lines(list, layouts),
            );
            &&& body::parsed_body(text) == all_trimmed(list)
            &&& (forall|k: int|
                0 <= k < list.len() ==> !text::is_white_space((#[trigger] list[k]).1.last()))
                ==> body::parsed_body(text) == list
        }),
{
    let lines = written_lines(list, layouts);
    lemma_written_lines(list, layouts);
    if list.len() == 0 {
        assert(body::joined(lines) =~= Seq::empty());
        assert(before + body::header(marker, blank, cr) + Seq::<char>::empty() =~= before
            + body::header(marker, blank, cr));
        lemma_nothing_below_the_header(before, marker, blank, cr);
        assert(all_trimmed(list) =~= Seq::empty());
        assert(list =~= Seq::empty());
    } else {
        assert(body::joined(lines).len() > 0) by {
            assert(lines[lines.len() - 1].len() > 0);
            assert(lines.last().len() > 0);
        }
        body::law_lines_below_the_header_are_read(before, marker, blank, cr, lines);
        let found = body::readings(lines);
        assert(body::entries_of(found) =~= all_trimmed(list)) by {
            assert forall|k: int| 0 <= k < list.len() implies body::entries_of(found)[k]
                == all_trimmed(list)[k] by {
                assert(found[k] == (list[k].0.spec_keyword(), list[k].1));
                entry::law_keyword_round_trip(list[k].0, list[k].0.spec_keyword());
            }
        }
        if forall|k: int|
            0 <= k < list.len() ==> !text::is_white_space((#[trigger] list[k]).1.last()) {
            assert(all_trimmed(list) =~= list) by {
                assert forall|k: int| 0 <= k < list.len() implies all_trimmed(list)[k]
                    == list[k] by {
                    assert(is_writable(list[k], layouts[k]));
                    assert(text::trimmed(list[k].1) == list[k].1);
                }
            }
        }
    }
}

/// A header with nothing below it opens no section.
proof fn lemma_nothing_below_the_header(
    before: Seq<char>,
    marker: Seq<char>,
    blank: Seq<char>,
    cr: Seq<char>,
)
    requires
        body::is_marker(marker),
        body::is_blank(blank),
        body::is_optional_cr(cr),
        forall|i: int, j: int|
            0 <= i < before.len() ==> !#[trigger] body::header_at(
                before + body::header(marker, blank, cr),
                i,
                j,
            ),
    ensures
        body::section(before + body::header(marker, blank, cr)) is None,
{
    let h = body::header(marker, blank, cr);
    let text = before + h;
    body::law_section_needs_a_header(text);
    assert(body::is_header(h));
    body::lemma_header_line_feed(h);
    assert forall|i: int, j: int| !body::header_at(text, i, j) by {
        if body::header_at(text, i, j) {
            let t = text.subrange(i, j);
            body::lemma_header_line_feed(t);
            assert(t[t.len() - 1] == h[j - 1 - before.len()]);
        }
    }
}

proof fn lemma_written_line(e: (ChangelogEntryType, Seq<char>), layout: Layout)
    requires
        is_writable(e, layout),
    ensures
        written_line(e, layout).len() > 0,
        !written_line(e, layout).contains('\n'),
        body::reading(written_line(e, layout)) == Some((e.0.spec_keyword(), e.1)),
{
    let keyword = e.0.spec_keyword();
    let line = written_line(e, layout);
    let front = layout.indent + layout.bullet + layout.gap;
    let a = front.len() as int;
    let b = a + keyword.len();
    let c = b + 1 + layout.space.len();
    let d = c + e.1.len();
    body::law_entry_line_is_read(
        layout.indent,
        layout.bullet,
        layout.gap,
        keyword,
        layout.space,
        e.1,
        layout.cr,
    );
    body::lemma_entry_layout(
        layout.indent,
        layout.bullet,
        layout.gap,
        keyword,
        layout.space,
        e.1,
        layout.cr,
    );
    assert forall|k: int| 0 <= k < line.len() implies line[k] != '\n' by {
        if k < a {
            assert(line[k] == front[k]);
            if k < layout.indent.len() {
                assert(front[k] == layout.indent[k]);
            } else if k < layout.indent.len() + layout.bullet.len() {
                assert(front[k] == layout.bullet[k - layout.indent.len()]);
            } else {
                assert(front[k] == layout.gap[k - layout.indent.len() - layout.bullet.len()]);
            }
        } else if c <= k < d {
            assert(line[k] == line.subrange(c, d)[k - c]);
        }
    }
}

proof fn lemma_written_lines(list: Seq<(ChangelogEntryType, Seq<char>)>, layouts: Seq<Layout>)
    requires
        layouts.len() == list.len(),
        forall|k: int| 0 <= k < list.len() ==> is_writable(#[trigger] list[k], layouts[k]),
    ensures
        ({
            let lines = written_lines(list, layouts);
            &&& forall|k: int|
                0 <= k < lines.len() ==> (#[trigger] lines[k]).len() > 0 && !lines[k].contains(
                    '\n',
                )
            &&& body::readings(lines).len() == list.len()
            &&& forall|k: int|
                0 <= k < list.len() ==> (#[trigger] body::readings(lines)[k]) == (
                    list[k].0.spec_keyword(),
                    list[k].1,
                )
        }),
    decreases list.len(),
{
    if list.len() > 0 {
        let lines = written_lines(list, layouts);
        let front = list.drop_last();
        let n = list.len() - 1;
        assert forall|k: int| 0 <= k < front.len() implies is_writable(
            #[trigger] front[k],
            layouts.drop_last()[k],
        ) by {
            assert(front[k] == list[k]);
        }
        lemma_written_lines(front, layouts.drop_last());
        assert(lines.drop_last() =~= written_lines(front, layouts.drop_last()));
        lemma_written_line(list[n], layouts[n]);
        assert(lines.last() == written_line(list[n], layouts[n]));
        assert forall|k: int| 0 <= k < lines.len() implies (#[trigger] lines[k]).len() > 0
            && !lines[k].contains('\n') by {
            if k < n {
                assert(lines[k] == lines.drop_last()[k]);
            }
        }
    }
}

/// An entry says nothing that the text does not: its keyword and its description
/// are parts of the text.
pub proof fn law_entries_are_parts_of_the_text(text: Seq<char>, k: int)
    requires
        0 <= k < body::parsed_body(text).len(),
    ensures
        exists|i: int, j: int|
            0 <= i <= j <= text.len() && #[trigger] text.subrange(i, j) == body::parsed_body(
                text,
            )[k].0.spec_keyword(),
        exists|i: int, j: int|
            0 <= i <= j <= text.len() && #[trigger] text.subrange(i, j) == body::parsed_body(
                text,
            )[k].1,
{
    let content = body::section(text)->0;
    let (hi, hj): (int, int) = choose|i: int, j: int| body::first_header_at(text, i, j);
    let lines = body::lines(content);
    let m = lemma_reading_origin(lines, k);
    let (keyword, description) = body::readings(lines)[k];
    let line = lines[m];
    let (i, j) = lemma_line_is_a_part(content, m);
    lemma_part_of_a_part(text, hj, text.skip(hj), i, j);
    let start = hj + i;
    let (a, b, c, d) = lemma_parts_of_an_entry_line(line, keyword, description);
    lemma_part_of_a_part(text, start, line, a, b);
    lemma_part_of_a_part(text, start, line, c, d);
    entry::law_keyword_round_trip(body::parsed_body(text)[k].0, keyword);
    assert(text.subrange(start + a, start + b) == keyword);
    assert(text.subrange(start + c, start + d) == text::trimmed(description));
}

/// Where the keyword stands in a line with an entry, and where what is kept of the
/// description does.
proof fn lemma_parts_of_an_entry_line(
    line: Seq<char>,
    keyword: Seq<char>,
    description: Seq<char>,
) -> (spans: (int, int, int, int))
    requires
        body::is_entry_line(line, keyword, description),
    ensures
        0 <= spans.0 <= spans.1 <= line.len(),
        keyword == line.subrange(spans.0, spans.1),
        0 <= spans.2 <= spans.3 <= line.len(),
        text::trimmed(description) == line.subrange(spans.2, spans.3),
        entry::is_keyword(keyword),
{
    let (indent, bullet, gap, space, cr) = body::lemma_entry_parts(line, keyword, description);
    body::lemma_entry_layout(indent, bullet, gap, keyword, space, description, cr);
    let a = (indent + bullet + gap).len() as int;
    let b = a + keyword.len();
    let c = b + 1 + space.len();
    let kept = text::trimmed(description);
    text::lemma_trimmed_end(description);
    assert(kept == text::trimmed_end(description));
    lemma_part_of_a_part(line, c, description, 0, kept.len() as int);
    assert(kept =~= description.subrange(0, kept.len() as int));
    (a, b, c, c + kept.len())
}

proof fn lemma_part_of_a_part(s: Seq<char>, start: int, part: Seq<char>, p: int, q: int)
    requires
        0 <= start,
        start + part.len() <= s.len(),
        part =~= s.subrange(start, start + part.len()),
        0 <= p <= q <= part.len(),
    ensures
        part.subrange(p, q) == s.subrange(start + p, start + q),
{
    assert(part.subrange(p, q) =~= s.subrange(start + p, start + q));
}

/// The line that a reading comes from.
proof fn lemma_reading_origin(lines: Seq<Seq<char>>, k: int) -> (m: int)
    requires
        0 <= k < body::readings(lines).len(),
    ensures
        0 <= m < lines.len(),
        body::reading(lines[m]) == Some(body::readings(lines)[k]),
        body::is_entry_line(lines[m], body::readings(lines)[k].0, body::readings(lines)[k].1),
    decreases lines.len(),
{
    let front = lines.drop_last();
    if k < body::readings(front).len() {
        lemma_reading_origin(front, k)
    } else {
        let pair = body::reading(lines.last())->0;
        assert(body::is_entry_line(lines.last(), pair.0, pair.1));
        lines.len() - 1
    }
}

/// By its characters the end of a header line is a marker, then spaces up to the line
/// break, which is a line feed, or a carriage return and a line feed.
pub proof fn law_headers_by_their_characters(s: Seq<char>)
    ensures
        body::is_header(s) <==> exists|m: int, e: int|
            {
                &&& 0 <= m <= e < s.len()
                &&& #[trigger] s.subrange(0, m) == seq![':', 'c', 'l', ':'] || s.subrange(0, m)
                    == seq!['\u{1F191}']
                &&& #[trigger] s.subrange(m, e) == Seq::new((e - m) as nat, |k: int| ' ')
                &&& e == s.len() - 1 || (e == s.len() - 2 && s[e] == '\r')
                &&& s[s.len() - 1] == '\n'
            },
{
    reveal_strlit(":cl:");
    assert(":cl:"@ =~= seq![':', 'c', 'l', ':']);
    if body::is_header(s) {
        let (marker, blank, cr) = body::lemma_header_parts(s);
        let m = marker.len() as int;
        let e = m + blank.len();
        assert(s.len() == e + cr.len() + 1);
        assert(s.subrange(0, m) =~= marker);
        assert(s.subrange(m, e) =~= Seq::new((e - m) as nat, |k: int| ' ')) by {
            assert forall|k: int| 0 <= k < e - m implies s.subrange(m, e)[k] == ' ' by {
                assert(s[m + k] == blank[k]);
            }
        }
        if cr.len() > 0 {
            assert(s[e] == cr[0]);
        }
    }
    if exists|m: int, e: int|
        {
            &&& 0 <= m <= e < s.len()
            &&& #[trigger] s.subrange(0, m) == seq![':', 'c', 'l', ':'] || s.subrange(0, m)
                == seq!['\u{1F191}']
            &&& #[trigger] s.subrange(m, e) == Seq::new((e - m) as nat, |k: int| ' ')
            &&& e == s.len() - 1 || (e == s.len() - 2 && s[e] == '\r')
            &&& s[s.len() - 1] == '\n'
        } {
        let (m, e) = choose|m: int, e: int|
            {
                &&& 0 <= m <= e < s.len()
                &&& #[trigger] s.subrange(0, m) == seq![':', 'c', 'l', ':'] || s.subrange(0, m)
                    == seq!['\u{1F191}']
                &&& #[trigger] s.subrange(m, e) == Seq::new((e - m) as nat, |k: int| ' ')
                &&& e == s.len() - 1 || (e == s.len() - 2 && s[e] == '\r')
                &&& s[s.len() - 1] == '\n'
            };
        let cr = s.subrange(e, s.len() - 1);
        assert(cr.len() == 0 || cr =~= seq!['\r']);
        assert(s =~= body::header(s.subrange(0, m), s.subrange(m, e), cr));
    }
}

/// The section of a text is what stands below its first header, all of it; there is
/// none exactly where no header has anything below it.
pub proof fn law_the_section_follows_the_first_header(text: Seq<char>, content: Seq<char>)
    ensures
        body::section(text) == Some(content) <==> exists|i: int, j: int|
            {
                &&& 0 <= i <= j < text.len()
                &&& body::is_header(#[trigger] text.subrange(i, j))
                &&& content == text.skip(j)
                &&& forall|i2: int, j2: int|
                    0 <= i2 < i && i2 <= j2 < text.len() ==> !body::is_header(
                        #[trigger] text.subrange(i2, j2),
                    )
            },
{
    if body::section(text) == Some(content) {
        let (i, j): (int, int) = choose|i: int, j: int| body::first_header_at(text, i, j);
        assert(body::first_header_at(text, i, j));
        assert(body::is_header(text.subrange(i, j)));
        assert forall|i2: int, j2: int|
            0 <= i2 < i && i2 <= j2 < text.len() implies !body::is_header(
            #[trigger] text.subrange(i2, j2),
        ) by {
            assert(!body::header_at(text, i2, j2));
        }
    }
    if exists|i: int, j: int|
        {
            &&& 0 <= i <= j < text.len()
            &&& body::is_header(#[trigger] text.subrange(i, j))
            &&& content == text.skip(j)
            &&& forall|i2: int, j2: int|
                0 <= i2 < i && i2 <= j2 < text.len() ==> !body::is_header(
                    #[trigger] text.subrange(i2, j2),
                )
        } {
        let (i, j) = choose|i: int, j: int|
            {
                &&& 0 <= i <= j < text.len()
                &&& body::is_header(#[trigger] text.subrange(i, j))
                &&& content == text.skip(j)
                &&& forall|i2: int, j2: int|
                    0 <= i2 < i && i2 <= j2 < text.len() ==> !body::is_header(
                        #[trigger] text.subrange(i2, j2),
                    )
            };
        assert(body::first_header_at(text, i, j));
        body::lemma_first_header(text, i, j);
    }
}

/// A line is read as what it is an entry of, and one that is no entry is left out.
pub proof fn law_a_line_is_read_as_its_entry(line: Seq<char>, pair: (Seq<char>, Seq<char>))
    ensures
        body::reading(line) == Some(pair) <==> body::is_entry_line(line, pair.0, pair.1),
        body::is_entry_line(line, pair.0, pair.1) ==> body::readings(seq![line]) == seq![pair],
        (forall|keyword: Seq<char>, description: Seq<char>|
            !body::is_entry_line(line, keyword, description)) ==> body::readings(seq![line]).len()
            == 0,
{
    let one = seq![line];
    assert(one.drop_last() =~= Seq::empty());
    assert(body::readings(one.drop_last()) =~= Seq::empty());
    if body::is_entry_line(line, pair.0, pair.1) {
        let read = body::reading(line)->0;
        assert(body::is_entry_line(line, read.0, read.1));
        body::law_entry_line_has_one_reading(line, pair.0, pair.1, read.0, read.1);
        assert(body::readings(one) =~= seq![pair]);
    }
}

/// The entries of a text are the readings of all the lines of its section, one for one
/// and in order: each of the kind that its keyword names, its description trimmed.
pub proof fn law_every_reading_is_an_entry(text: Seq<char>, k: int)
    ensures
        body::section(text) is None ==> body::parsed_body(text).len() == 0,
        body::section(text) matches Some(content) ==> {
            let found = body::readings(body::lines(content));
            let parsed = body::parsed_body(text);
            &&& parsed.len() == found.len()
            &&& 0 <= k < found.len() ==> {
                &&& parsed[k].0.spec_keyword() == found[k].0
                &&& parsed[k].1 == text::trimmed(found[k].1)
            }
        },
{
    if let Some(content) = body::section(text) {
        let found = body::readings(body::lines(content));
        if 0 <= k < found.len() {
            body::lemma_readings_are_entries(body::lines(content), k);
        }
    }
}

/// The patterns, word for word: what is claimed of the searches is claimed of them
/// alone.
pub proof fn law_the_patterns_of_headers_and_entries()
    ensures
        body::HEADER_RE@ == "(?::cl:|\u{1F191}) *\\r?\\n(.+)$"@,
        body::ENTRY_RE@
            == "^ *[*-]? *(bugfix|wip|tweak|soundadd|sounddel|rscdel|rscadd|imageadd|imagedel|spellcheck|experiment|tgs): *(\\S[^\\n\\r]+)\\r?$"@,
{
}

/// What was found is taken over pair for pair: each entry is of the kind that its
/// keyword names, with the description that was found for it, trimmed.
pub proof fn law_pairs_become_entries_one_for_one(
    found: Seq<(String, String)>,
    k: int,
    kind: ChangelogEntryType,
)
    requires
        0 <= k < found.len(),
    ensures
        body::pairs(found).len() == found.len(),
        body::pairs(found)[k] == (found[k].0@, found[k].1@),
        body::entries_of(body::pairs(found)).len() == found.len(),
        body::entries_of(body::pairs(found))[k].1 == text::trimmed(found[k].1@),
        found[k].0@ == kind.spec_keyword() ==> body::entries_of(body::pairs(found))[k].0 == kind,
{
    entry::law_keyword_round_trip(kind, found[k].0@);
}

/// By its characters a line is an entry where, in this order, there are spaces with at
/// most one list sign among them, the keyword, a colon, spaces, the description, and
/// at most a carriage return.
pub proof fn law_entry_lines_by_their_characters(
    line: Seq<char>,
    keyword: Seq<char>,
    description: Seq<char>,
)
    ensures
        body::is_entry_line(line, keyword, description) <==> {
            &&& exists|kind: ChangelogEntryType| keyword == #[trigger] kind.spec_keyword()
            &&& description.len() >= 2
            &&& !text::is_white_space(description[0])
            &&& forall|k: int|
                0 <= k < description.len() ==> #[trigger] description[k] != '\n' && description[k]
                    != '\r'
            &&& exists|a: int, c: int|
                {
                    &&& 0 <= a && a + keyword.len() < c && c + description.len() <= line.len()
                    &&& forall|k: int|
                        0 <= k < a ==> #[trigger] line[k] == ' ' || line[k] == '*' || line[k] == '-'
                    &&& forall|k: int, m: int|
                        0 <= k < m < a ==> #[trigger] line[k] == ' ' || #[trigger] line[m] == ' '
                    &&& #[trigger] line.subrange(a, a + keyword.len()) == keyword
                    &&& line[a + keyword.len()] == ':'
                    &&& forall|k: int| a + keyword.len() < k < c ==> #[trigger] line[k] == ' '
                    &&& #[trigger] line.subrange(c, c + description.len()) == description
                    &&& c + description.len() == line.len() || (c + description.len() == line.len()
                        - 1 && line.last() == '\r')
                }
        },
{
    if body::is_entry_line(line, keyword, description) {
        let (indent, bullet, gap, space, cr) = body::lemma_entry_parts(line, keyword, description);
        body::lemma_entry_layout(indent, bullet, gap, keyword, space, description, cr);
        let front = indent + bullet + gap;
        let a = front.len() as int;
        let c = a + keyword.len() + 1 + space.len();
        let p = indent.len() as int;
        assert forall|k: int| 0 <= k < a implies line[k] == front[k] by {}
        assert forall|k: int| 0 <= k < a && !(p <= k < p + bullet.len()) implies front[k] == ' ' by {
            if k < p {
                assert(front[k] == indent[k]);
            } else {
                assert(front[k] == gap[k - p - bullet.len()]);
            }
        }
        if bullet.len() > 0 {
            assert(front[p] == bullet[0]);
        }
        assert(line.subrange(a, a + keyword.len()) == keyword);
        assert(line.subrange(c, c + description.len()) == description);
    }
    if exists|a: int, c: int| is_laid_out(line, keyword, description, a, c) {
        let (a, c) = choose|a: int, c: int| is_laid_out(line, keyword, description, a, c);
        if entry::is_keyword(keyword) && body::is_description(description) {
            lemma_laid_out_line_is_an_entry(line, keyword, description, a, c);
        }
    }
    assert forall|a: int, c: int|
        {
            &&& 0 <= a && a + keyword.len() < c && c + description.len() <= line.len()
            &&& forall|k: int|
                0 <= k < a ==> #[trigger] line[k] == ' ' || line[k] == '*' || line[k] == '-'
            &&& forall|k: int, m: int|
                0 <= k < m < a ==> #[trigger] line[k] == ' ' || #[trigger] line[m] == ' '
            &&& #[trigger] line.subrange(a, a + keyword.len()) == keyword
            &&& line[a + keyword.len()] == ':'
            &&& forall|k: int| a + keyword.len() < k < c ==> #[trigger] line[k] == ' '
            &&& #[trigger] line.subrange(c, c + description.len()) == description
            &&& c + description.len() == line.len() || (c + description.len() == line.len() - 1
                && line.last() == '\r')
        } implies is_laid_out(line, keyword, description, a, c) by {}
}

spec fn is_laid_out(
    line: Seq<char>,
    keyword: Seq<char>,
    description: Seq<char>,
    a: int,
    c: int,
) -> bool {
    &&& 0 <= a && a + keyword.len() < c && c + description.len() <= line.len()
    &&& forall|k: int| 0 <= k < a ==> #[trigger] line[k] == ' ' || line[k] == '*' || line[k] == '-'
    &&& forall|k: int, m: int|
        0 <= k < m < a ==> #[trigger] line[k] == ' ' || #[trigger] line[m] == ' '
    &&& line.subrange(a, a + keyword.len()) == keyword
    &&& line[a + keyword.len()] == ':'
    &&& forall|k: int| a + keyword.len() < k < c ==> #[trigger] line[k] == ' '
    &&& line.subrange(c, c + description.len()) == description
    &&& c + description.len() == line.len() || (c + description.len() == line.len() - 1
        && line.last() == '\r')
}

proof fn lemma_laid_out_line_is_an_entry(
    line: Seq<char>,
    keyword: Seq<char>,
    description: Seq<char>,
    a: int,
    c: int,
)
    requires
        is_laid_out(line, keyword, description, a, c),
        entry::is_keyword(keyword),
        body::is_description(description),
    ensures
        body::is_entry_line(line, keyword, description),
{
    let b = a + keyword.len();
    let d = c + description.len();
    let p = if exists|k: int| 0 <= k < a && #[trigger] line[k] != ' ' {
        choose|k: int| 0 <= k < a && #[trigger] line[k] != ' '
    } else {
        a
    };
    let q = if p < a {
        p + 1
    } else {
        a
    };
    let indent = line.subrange(0, p);
    let bullet = line.subrange(p, q);
    let gap = line.subrange(q, a);
    let space = line.subrange(b + 1, c);
    let cr = line.subrange(d, line.len() as int);
    assert(bullet.len() == 0 || bullet =~= seq!['*'] || bullet =~= seq!['-']);
    assert(cr.len() == 0 || cr =~= seq!['\r']);
    assert forall|k: int| a <= k < b implies line[k] == keyword[k - a] by {
        assert(line.subrange(a, b)[k - a] == line[k]);
    }
    assert forall|k: int| c <= k < d implies line[k] == description[k - c] by {
        assert(line.subrange(c, d)[k - c] == line[k]);
    }
    assert(body::are_entry_parts(indent, bullet, gap, keyword, space, description, cr));
    assert(line =~= body::entry_line(indent, bullet, gap, keyword, space, description, cr));
}

} // verus!
