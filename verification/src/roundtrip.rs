//! Writing a store and reading the text again gives the store back.

use crate::header::{header_name, header_of, HeaderStyle};
use crate::parser::{flushed, parsed, scan_line, scan_lines, scan_start, Scan};
use crate::profile::ProfileView;
use crate::store::{rendered, same_store, section_texts, style_renderer};
use crate::text::{join, lemma_position_bounds, lemma_position_is, lines_of, strip_cr};
use vstd::prelude::*;
use vstd::string::*;

verus! {

/// Whether a text is one physical line that reading gives back unchanged:
/// it holds no line break and does not end in a carriage return.
pub open spec fn single_line(s: Seq<char>) -> bool {
    !s.contains('\n') && (s.len() > 0 ==> s.last() != '\r')
}

/// Whether the header that `render` writes for `name` is one line that the
/// pattern reads back as `name`.
pub open spec fn reads_back(
    pattern: Seq<char>,
    render: spec_fn(Seq<char>) -> Seq<char>,
    name: Seq<char>,
) -> bool {
    &&& name.len() > 0
    &&& single_line(render(name))
    &&& header_name(pattern, render(name)) == Some(name)
}

/// Whether a line can stand below a header: it is not empty, it is one
/// line, and the pattern does not take it for a header.
pub open spec fn plain_line(pattern: Seq<char>, line: Seq<char>) -> bool {
    &&& line.len() > 0
    &&& single_line(line)
    &&& header_name(pattern, line) is None
}

/// Whether every line of a list can stand below a header.
pub open spec fn plain_lines(pattern: Seq<char>, lines: Seq<Seq<char>>) -> bool {
    forall|j: int| 0 <= j < lines.len() ==> plain_line(pattern, #[trigger] lines[j])
}

/// Whether the pattern and the header rule fit the store: the empty line
/// opens no named section, every section name is read back from its header,
/// and every line can stand below a header.
pub open spec fn fits(
    pattern: Seq<char>,
    render: spec_fn(Seq<char>) -> Seq<char>,
    secs: Seq<ProfileView>,
) -> bool {
    &&& header_name(pattern, Seq::empty()) matches Some(n) ==> n.len() == 0
    &&& forall|i: int|
        0 <= i < secs.len() ==> reads_back(pattern, render, (#[trigger] secs[i]).name)
    &&& forall|i: int| 0 <= i < secs.len() ==> plain_lines(pattern, (#[trigger] secs[i]).lines)
}

/// A single line, a line break and a rest are read as the line and then the
/// lines of the rest.
pub proof fn lemma_lines_cons(a: Seq<char>, rest: Seq<char>)
    requires
        single_line(a),
    ensures
        lines_of(a + "\n"@ + rest) == seq![a] + lines_of(rest),
{
    reveal_strlit("\n");
    let text = a + "\n"@ + rest;
    let i = a.len() as int;
    assert forall|j: int| 0 <= j < i implies text[j] != '\n' by {
        assert(text[j] == a[j]);
        assert(a.contains(a[j]));
    }
    assert(text[i] == '\n');
    lemma_position_is(text, '\n', i);
    assert(text.subrange(0, i) =~= a);
    assert(strip_cr(a) == a);
    assert(text.subrange(i + 1, text.len() as int) =~= rest);
}

/// A single non-empty line is read as itself.
pub proof fn lemma_lines_one(a: Seq<char>)
    requires
        single_line(a),
        a.len() > 0,
    ensures
        lines_of(a) == seq![a],
{
    lemma_position_bounds(a, '\n');
}

/// Lines joined by line breaks are read as themselves, and so are they when
/// a line break and a rest follow; an empty list followed by a line break
/// is read as one empty line.
pub proof fn lemma_lines_of_body(pattern: Seq<char>, lines: Seq<Seq<char>>, rest: Seq<char>)
    requires
        plain_lines(pattern, lines),
    ensures
        lines_of(join(lines, "\n"@)) == lines,
        lines_of(join(lines, "\n"@) + "\n"@ + rest) == if lines.len() == 0 {
            seq![Seq::<char>::empty()] + lines_of(rest)
        } else {
            lines + lines_of(rest)
        },
    decreases lines.len(),
{
    let nl = "\n"@;
    if lines.len() == 0 {
        assert(join(lines, nl) =~= Seq::<char>::empty());
        lemma_lines_cons(Seq::empty(), rest);
        assert(lines_of(Seq::<char>::empty()) =~= lines);
    } else if lines.len() == 1 {
        assert(plain_line(pattern, lines[0]));
        lemma_lines_one(lines[0]);
        lemma_lines_cons(lines[0], rest);
        assert(seq![lines[0]] =~= lines);
    } else {
        let tail = lines.drop_first();
        assert(plain_line(pattern, lines[0]));
        assert forall|j: int| 0 <= j < tail.len() implies plain_line(
            pattern,
            #[trigger] tail[j],
        ) by {
            assert(tail[j] == lines[j + 1]);
        }
        lemma_lines_of_body(pattern, tail, rest);
        lemma_lines_cons(lines[0], join(tail, nl));
        lemma_lines_cons(lines[0], join(tail, nl) + nl + rest);
        assert(join(lines, nl) + nl + rest =~= lines[0] + nl + (join(tail, nl) + nl + rest));
        assert(seq![lines[0]] + tail =~= lines);
        assert(seq![lines[0]] + (tail + lines_of(rest)) =~= lines + lines_of(rest));
    }
}

/// Reading two runs of lines one after the other is reading their
/// concatenation.
pub proof fn lemma_scan_concat(pattern: Seq<char>, st: Scan, a: Seq<Seq<char>>, b: Seq<Seq<char>>)
    ensures
        scan_lines(pattern, st, a + b) == scan_lines(pattern, scan_lines(pattern, st, a), b),
    decreases b.len(),
{
    if b.len() == 0 {
        assert(a + b =~= a);
    } else {
        lemma_scan_concat(pattern, st, a, b.drop_last());
        assert((a + b).drop_last() =~= a + b.drop_last());
        assert((a + b).last() == b.last());
    }
}

/// Lines that can stand below a header join the lines of the open section.
pub proof fn lemma_scan_plain(pattern: Seq<char>, st: Scan, lines: Seq<Seq<char>>)
    requires
        plain_lines(pattern, lines),
    ensures
        scan_lines(pattern, st, lines) == (Scan {
            done: st.done,
            name: st.name,
            pending: st.pending + lines,
        }),
    decreases lines.len(),
{
    if lines.len() == 0 {
        assert(st.pending + lines =~= st.pending);
    } else {
        let before = lines.drop_last();
        assert forall|j: int| 0 <= j < before.len() implies plain_line(
            pattern,
            #[trigger] before[j],
        ) by {
            assert(before[j] == lines[j]);
        }
        lemma_scan_plain(pattern, st, before);
        assert(plain_line(pattern, lines[lines.len() - 1]));
        assert((st.pending + before).push(lines.last()) =~= st.pending + lines);
    }
}

/// A header and the lines below it leave the section open that they
/// describe, with all that came before closed.
pub proof fn lemma_scan_section(
    pattern: Seq<char>,
    st: Scan,
    header: Seq<char>,
    sec: ProfileView,
)
    requires
        header_name(pattern, header) == Some(sec.name),
        plain_lines(pattern, sec.lines),
    ensures
        scan_lines(pattern, st, seq![header] + sec.lines) == (Scan {
            done: flushed(st),
            name: sec.name,
            pending: sec.lines,
        }),
{
    let first = seq![header];
    assert(first.drop_last() =~= Seq::<Seq<char>>::empty());
    assert(first.last() == header);
    assert(scan_lines(pattern, st, first.drop_last()) == st);
    let opened = scan_lines(pattern, st, first);
    assert(opened == scan_line(pattern, st, header));
    lemma_scan_concat(pattern, st, first, sec.lines);
    lemma_scan_plain(pattern, opened, sec.lines);
    assert(Seq::<Seq<char>>::empty() + sec.lines =~= sec.lines);
}

/// Empty lines change nothing in the sections that a reader has seen.
pub proof fn lemma_scan_blanks(pattern: Seq<char>, st: Scan, blanks: Seq<Seq<char>>)
    requires
        header_name(pattern, Seq::empty()) matches Some(n) ==> n.len() == 0,
        forall|j: int| 0 <= j < blanks.len() ==> (#[trigger] blanks[j]).len() == 0,
    ensures
        flushed(scan_lines(pattern, st, blanks)) == flushed(st),
    decreases blanks.len(),
{
    if blanks.len() > 0 {
        lemma_scan_blanks(pattern, st, blanks.drop_last());
        assert(blanks[blanks.len() - 1].len() == 0);
        assert(blanks.last() =~= Seq::<char>::empty());
    }
}

/// From any state, reading the text of a store closes what was open and
/// then finds the store's sections.
pub proof fn lemma_round_trip_from(
    pattern: Seq<char>,
    render: spec_fn(Seq<char>) -> Seq<char>,
    st: Scan,
    secs: Seq<ProfileView>,
)
    requires
        fits(pattern, render, secs),
    ensures
        flushed(scan_lines(pattern, st, lines_of(rendered(render, secs)))) == flushed(st) + secs,
    decreases secs.len(),
{
    reveal_strlit("\n");
    reveal_strlit("\n\n");
    let nl = "\n"@;
    let texts = section_texts(render, secs);
    if secs.len() == 0 {
        assert(rendered(render, secs) =~= Seq::<char>::empty());
        assert(flushed(st) + secs =~= flushed(st));
    } else {
        let sec = secs[0];
        let header = render(sec.name);
        let body = join(sec.lines, nl);
        assert(reads_back(pattern, render, sec.name));
        assert(plain_lines(pattern, sec.lines));
        assert(texts[0] == header + nl + body);
        let own = seq![header] + sec.lines;
        lemma_scan_section(pattern, st, header, sec);
        let opened = scan_lines(pattern, st, own);
        assert(flushed(opened) =~= flushed(st).push(sec));
        if secs.len() == 1 {
            assert(rendered(render, secs) == texts[0]);
            lemma_lines_cons(header, body);
            lemma_lines_of_body(pattern, sec.lines, Seq::empty());
            assert(flushed(st).push(sec) =~= flushed(st) + secs);
        } else {
            let rest = secs.drop_first();
            assert(texts.drop_first() =~= section_texts(render, rest));
            let tail = rendered(render, rest);
            assert(rendered(render, secs) == texts[0] + "\n\n"@ + tail);
            assert("\n\n"@ =~= nl + nl);
            assert(forall|i: int| 0 <= i < rest.len() ==> rest[i] == secs[i + 1]);
            assert(fits(pattern, render, rest));
            assert(texts[0] + "\n\n"@ + tail =~= header + nl + (body + nl + (nl + tail)));
            lemma_lines_cons(header, body + nl + (nl + tail));
            lemma_lines_of_body(pattern, sec.lines, nl + tail);
            assert(nl + tail =~= Seq::<char>::empty() + nl + tail);
            lemma_lines_cons(Seq::empty(), tail);
            let blank = Seq::<char>::empty();
            let blanks = if sec.lines.len() == 0 {
                seq![blank, blank]
            } else {
                seq![blank]
            };
            let all = lines_of(rendered(render, secs));
            assert(all =~= own + blanks + lines_of(tail));
            lemma_scan_concat(pattern, st, own + blanks, lines_of(tail));
            lemma_scan_concat(pattern, st, own, blanks);
            lemma_scan_blanks(pattern, opened, blanks);
            let settled = scan_lines(pattern, opened, blanks);
            lemma_round_trip_from(pattern, render, settled, rest);
            assert(flushed(st).push(sec) + rest =~= flushed(st) + secs);
        }
    }
}

/// Round trip. Where the pattern and the header rule fit a store, reading
/// the text that is written for the store gives the store back: the same
/// sections in the same order with the same lines, and so a store that is
/// the same in the sense of `same_store`.
pub proof fn law_round_trip(
    pattern: Seq<char>,
    render: spec_fn(Seq<char>) -> Seq<char>,
    secs: Seq<ProfileView>,
)
    requires
        fits(pattern, render, secs),
    ensures
        parsed(pattern, rendered(render, secs)) == secs,
        same_store(parsed(pattern, rendered(render, secs)), secs),
{
    lemma_round_trip_from(pattern, render, scan_start(), secs);
    assert(flushed(scan_start()) + secs =~= secs);
}

/// The header that a style writes for a name without a line break is one
/// line.
pub proof fn lemma_header_single_line(style: HeaderStyle, name: Seq<char>)
    requires
        !name.contains('\n'),
    ensures
        single_line(header_of(style, name)),
{
    reveal_strlit("[");
    reveal_strlit("]");
    reveal_strlit("[default]");
    reveal_strlit("[profile ");
    let header = header_of(style, name);
    let open = if style == HeaderStyle::Bare {
        "["@
    } else {
        "[profile "@
    };
    assert(header.last() == ']');
    assert forall|i: int| 0 <= i < header.len() implies header[i] != '\n' by {
        if header != "[default]"@ {
            assert(header == open + name + "]"@);
            if open.len() <= i < open.len() + name.len() {
                assert(header[i] == name[i - open.len()]);
                assert(name.contains(name[i - open.len()]));
            }
        }
    }
}

/// Round trip under a header style. Where the empty line opens no named
/// section, every section name is non-empty, holds no line break and is
/// read back from the header that the style writes for it, and every line
/// can stand below a header, reading the text that is written for the store
/// gives the store back.
pub proof fn law_round_trip_style(pattern: Seq<char>, style: HeaderStyle, secs: Seq<ProfileView>)
    requires
        header_name(pattern, Seq::empty()) matches Some(n) ==> n.len() == 0,
        forall|i: int|
            0 <= i < secs.len() ==> {
                &&& (#[trigger] secs[i]).name.len() > 0
                &&& !secs[i].name.contains('\n')
                &&& header_name(pattern, header_of(style, secs[i].name)) == Some(secs[i].name)
                &&& plain_lines(pattern, secs[i].lines)
            },
    ensures
        parsed(pattern, rendered(style_renderer(style), secs)) == secs,
        same_store(parsed(pattern, rendered(style_renderer(style), secs)), secs),
{
    let render = style_renderer(style);
    assert forall|i: int| 0 <= i < secs.len() implies reads_back(
        pattern,
        render,
        (#[trigger] secs[i]).name,
    ) by {
        lemma_header_single_line(style, secs[i].name);
    }
    law_round_trip(pattern, render, secs);
}

} // verus!
