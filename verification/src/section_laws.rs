//! What a section of a parsed template holds, stated over the lines of the template text:
//! a section is its heading followed by every one of its other lines, blank lines included.
use vstd::prelude::*;
use crate::template::{
    initial_state, is_heading, is_placeholder_line, spec_parse_step, optional_heading, plain_heading, spec_parse_lines,
    spec_parse_template, spec_trim_header_prefix, BlockView,
};
use crate::text::{spec_join, spec_lines, spec_replace, spec_starts_with, spec_trim_start_matches};
use crate::{spec_root_lines, spec_root_step, spec_root_template};

verus! {

/// A line that is neither a heading nor a placeholders line: a line of a section's text.
pub open spec fn is_text_line(line: Seq<char>) -> bool {
    !is_heading(line) && !is_placeholder_line(line)
}

/// Every line strictly between positions `a` and `b` is a line of text.
pub open spec fn text_between(lines: Seq<Seq<char>>, a: int, b: int) -> bool {
    forall|i: int| a < i < b ==> is_text_line(#[trigger] lines[i])
}

/// Every heading among the first `n` lines has a title.
pub open spec fn headings_titled(lines: Seq<Seq<char>>, n: int) -> bool {
    forall|i: int| 0 <= i < n && is_heading(#[trigger] lines[i]) ==> spec_trim_header_prefix(lines[i]).len() > 0
}

/// The section that the heading `heading` and the lines `rest` under it form: named by the
/// heading's title without its leading `?`s, optional when the title starts with `?`, and
/// holding the heading (with `## ?` written `## `) followed by every line of `rest`, one per
/// line.
pub open spec fn section_of(heading: Seq<char>, rest: Seq<Seq<char>>) -> BlockView {
    let title = spec_trim_header_prefix(heading);
    BlockView {
        name: spec_trim_start_matches(title, seq!['?']),
        content: spec_join(
            seq![spec_replace(heading, optional_heading(), plain_heading())] + rest,
            seq!['\n'],
        ),
        required: !spec_starts_with(title, seq!['?']),
    }
}

proof fn lemma_titled_section_open(lines: Seq<Seq<char>>, m: nat)
    requires
        1 <= m <= lines.len(),
        is_heading(lines[0]),
        headings_titled(lines, m as int),
    ensures
        spec_parse_lines(lines, m).section.len() > 0,
    decreases m,
{
    assert(is_heading(lines[0]));
    if m > 1 {
        lemma_titled_section_open(lines, (m - 1) as nat);
        if is_heading(lines[m - 1]) {
            assert(spec_trim_header_prefix(lines[m - 1]).len() > 0);
        }
    }
}

proof fn lemma_blocks_grow(lines: Seq<Seq<char>>, m: nat, m2: nat)
    requires
        m <= m2 <= lines.len(),
    ensures
        spec_parse_lines(lines, m).blocks.len() <= spec_parse_lines(lines, m2).blocks.len(),
        forall|k: int|
            0 <= k < spec_parse_lines(lines, m).blocks.len() ==> spec_parse_lines(lines, m2).blocks[k]
                == #[trigger] spec_parse_lines(lines, m).blocks[k],
    decreases m2,
{
    if m2 > m {
        lemma_blocks_grow(lines, m, (m2 - 1) as nat);
    }
}

proof fn lemma_section_body(lines: Seq<Seq<char>>, a: int, m: nat)
    requires
        0 <= a < m <= lines.len(),
        m == a + 1 || m < lines.len(),
        is_heading(lines[0]),
        headings_titled(lines, a + 1),
        is_heading(lines[a]),
        text_between(lines, a, m as int),
    ensures
        spec_parse_lines(lines, m).section == spec_trim_header_prefix(lines[a]),
        spec_parse_lines(lines, m).body == seq![
            spec_replace(lines[a], optional_heading(), plain_heading()),
        ] + lines.subrange(a + 1, m as int),
    decreases m,
{
    let shown = spec_replace(lines[a], optional_heading(), plain_heading());
    assert(spec_parse_lines(lines, m) == spec_parse_step(
        spec_parse_lines(lines, (m - 1) as nat),
        lines[m - 1],
        m == lines.len(),
    ));
    if m == a + 1 {
        if a > 0 {
            lemma_titled_section_open(lines, a as nat);
        }
        assert(seq![shown] + lines.subrange(a + 1, m as int) =~= seq![shown]);
        assert(Seq::<Seq<char>>::empty().push(shown) =~= seq![shown]);
    } else {
        lemma_section_body(lines, a, (m - 1) as nat);
        assert(is_text_line(lines[m - 1]));
        assert(lines.subrange(a + 1, m as int) =~= lines.subrange(a + 1, m - 1).push(lines[m - 1]));
        assert(seq![shown] + lines.subrange(a + 1, m as int) =~= (seq![shown] + lines.subrange(
            a + 1,
            m - 1,
        )).push(lines[m - 1]));
    }
}

/// A section followed by another heading holds its heading and every line up to that
/// heading, blank lines included, as long as the template starts with a heading and every
/// heading up to this one has a title.
pub proof fn law_section_up_to_next_heading(content: Seq<char>, file_name: Seq<char>, a: int, b: int)
    requires
        0 <= a < b < spec_lines(content).len(),
        is_heading(spec_lines(content)[0]),
        headings_titled(spec_lines(content), a + 1),
        is_heading(spec_lines(content)[a]),
        is_heading(spec_lines(content)[b]),
        text_between(spec_lines(content), a, b),
    ensures
        exists|k: int|
            0 <= k < spec_parse_template(content, file_name).content.len()
                && spec_parse_template(content, file_name).content[k] == section_of(
                spec_lines(content)[a],
                spec_lines(content).subrange(a + 1, b),
            ),
{
    let ls = spec_lines(content);
    lemma_section_body(ls, a, b as nat);
    assert(spec_trim_header_prefix(ls[a]).len() > 0);
    let before = spec_parse_lines(ls, b as nat);
    let after = spec_parse_lines(ls, (b + 1) as nat);
    assert(after.blocks == before.blocks.push(section_of(ls[a], ls.subrange(a + 1, b))));
    lemma_blocks_grow(ls, (b + 1) as nat, ls.len());
    let k = before.blocks.len() as int;
    assert(after.blocks[k] == section_of(ls[a], ls.subrange(a + 1, b)));
    assert(spec_parse_template(content, file_name).content[k] == section_of(
        ls[a],
        ls.subrange(a + 1, b),
    ));
}

/// The last section holds its heading and every line after it, blank lines included, when
/// the template starts with a heading, every heading up to this one has a title and no
/// heading or placeholders line follows it.
pub proof fn law_last_section(content: Seq<char>, file_name: Seq<char>, a: int)
    requires
        0 <= a < spec_lines(content).len() - 1,
        is_heading(spec_lines(content)[0]),
        headings_titled(spec_lines(content), a + 1),
        is_heading(spec_lines(content)[a]),
        text_between(spec_lines(content), a, spec_lines(content).len() as int),
    ensures
        spec_parse_template(content, file_name).content.len() > 0,
        spec_parse_template(content, file_name).content.last() == section_of(
            spec_lines(content)[a],
            spec_lines(content).subrange(a + 1, spec_lines(content).len() as int),
        ),
{
    let ls = spec_lines(content);
    let n = ls.len();
    lemma_section_body(ls, a, (n - 1) as nat);
    assert(is_text_line(ls[n - 1]));
    let shown = spec_replace(ls[a], optional_heading(), plain_heading());
    assert((seq![shown] + ls.subrange(a + 1, n - 1)).push(ls[n - 1]) =~= seq![shown]
        + ls.subrange(a + 1, n as int));
}

proof fn lemma_root_blocks_grow(lines: Seq<Seq<char>>, m: nat, m2: nat)
    requires
        m <= m2 <= lines.len(),
    ensures
        spec_root_lines(lines, m).blocks.len() <= spec_root_lines(lines, m2).blocks.len(),
        forall|k: int|
            0 <= k < spec_root_lines(lines, m).blocks.len() ==> spec_root_lines(lines, m2).blocks[k]
                == #[trigger] spec_root_lines(lines, m).blocks[k],
    decreases m2,
{
    if m2 > m {
        lemma_root_blocks_grow(lines, m, (m2 - 1) as nat);
    }
}

proof fn lemma_root_first_body(lines: Seq<Seq<char>>, m: nat)
    requires
        1 <= m <= lines.len(),
        is_heading(lines[0]),
        spec_trim_header_prefix(lines[0]).len() > 0,
        text_between(lines, 0, m as int),
    ensures
        spec_root_lines(lines, m).blocks.len() == 0,
        spec_root_lines(lines, m).section == spec_trim_header_prefix(lines[0]),
        spec_root_lines(lines, m).body == seq![
            spec_replace(lines[0], optional_heading(), plain_heading()),
        ] + lines.subrange(1, m as int),
    decreases m,
{
    let shown = spec_replace(lines[0], optional_heading(), plain_heading());
    assert(spec_root_lines(lines, m) == spec_root_step(
        spec_root_lines(lines, (m - 1) as nat),
        lines[m - 1],
    ));
    if m == 1 {
        assert(spec_root_lines(lines, 0) == initial_state());
        assert(seq![shown] + lines.subrange(1, 1) =~= seq![shown]);
        assert(Seq::<Seq<char>>::empty().push(shown) =~= seq![shown]);
    } else {
        lemma_root_first_body(lines, (m - 1) as nat);
        assert(is_text_line(lines[m - 1]));
        assert(seq![shown] + lines.subrange(1, m as int) =~= (seq![shown] + lines.subrange(
            1,
            m - 1,
        )).push(lines[m - 1]));
    }
}

/// With the root reader, a template that starts with a titled heading has as its first
/// section that heading and every line up to the next heading, blank lines included.
pub proof fn law_root_first_section(content: Seq<char>, file_name: Seq<char>, b: int)
    requires
        0 < b < spec_lines(content).len(),
        is_heading(spec_lines(content)[0]),
        spec_trim_header_prefix(spec_lines(content)[0]).len() > 0,
        is_heading(spec_lines(content)[b]),
        text_between(spec_lines(content), 0, b),
    ensures
        spec_root_template(content, file_name).content.len() > 0,
        spec_root_template(content, file_name).content[0] == section_of(
            spec_lines(content)[0],
            spec_lines(content).subrange(1, b),
        ),
{
    let ls = spec_lines(content);
    lemma_root_first_body(ls, b as nat);
    let after = spec_root_lines(ls, (b + 1) as nat);
    assert(after.blocks =~= seq![section_of(ls[0], ls.subrange(1, b))]);
    lemma_root_blocks_grow(ls, (b + 1) as nat, ls.len());
    assert(after.blocks[0] == section_of(ls[0], ls.subrange(1, b)));
}

/// The number of headings among the first `n` lines.
pub open spec fn heading_count(lines: Seq<Seq<char>>, n: int) -> int
    decreases n,
{
    if n <= 0 {
        0
    } else {
        heading_count(lines, n - 1) + if is_heading(lines[n - 1]) {
            1int
        } else {
            0int
        }
    }
}

proof fn lemma_root_parity(lines: Seq<Seq<char>>, m: nat)
    requires
        m <= lines.len(),
        headings_titled(lines, m as int),
    ensures
        spec_root_lines(lines, m).section.len() > 0 <==> heading_count(lines, m as int) % 2 == 1,
    decreases m,
{
    if m > 0 {
        lemma_root_parity(lines, (m - 1) as nat);
        assert(spec_root_lines(lines, m) == spec_root_step(
            spec_root_lines(lines, (m - 1) as nat),
            lines[m - 1],
        ));
        if is_heading(lines[m - 1]) {
            assert(spec_trim_header_prefix(lines[m - 1]).len() > 0);
        } else {
            assert(lines[m - 1] == lines[m - 1]);
        }
    }
}

proof fn lemma_root_after_close(lines: Seq<Seq<char>>, c: int, m: nat)
    requires
        0 <= c < m <= lines.len(),
        headings_titled(lines, c + 1),
        is_heading(lines[c]),
        heading_count(lines, c) % 2 == 1,
        text_between(lines, c, m as int),
    ensures
        spec_root_lines(lines, m).section.len() == 0,
        spec_root_lines(lines, m).body == seq![
            spec_replace(lines[c], optional_heading(), plain_heading()),
        ] + lines.subrange(c + 1, m as int),
    decreases m,
{
    let shown = spec_replace(lines[c], optional_heading(), plain_heading());
    assert(spec_root_lines(lines, m) == spec_root_step(
        spec_root_lines(lines, (m - 1) as nat),
        lines[m - 1],
    ));
    if m == c + 1 {
        lemma_root_parity(lines, c as nat);
        assert(seq![shown] + lines.subrange(c + 1, m as int) =~= seq![shown]);
    } else {
        lemma_root_after_close(lines, c, (m - 1) as nat);
        assert(is_text_line(lines[m - 1]));
        assert(seq![shown] + lines.subrange(c + 1, m as int) =~= (seq![shown] + lines.subrange(
            c + 1,
            m - 1,
        )).push(lines[m - 1]));
    }
}

/// The lines of a later section of the root reader: the heading that closed the section
/// before it, the lines up to the section's own heading, that heading, and its lines.
pub open spec fn root_section_lines(lines: Seq<Seq<char>>, c: int, a: int, b: int) -> Seq<Seq<char>> {
    seq![spec_replace(lines[c], optional_heading(), plain_heading())] + lines.subrange(c + 1, a)
        + seq![spec_replace(lines[a], optional_heading(), plain_heading())] + lines.subrange(
        a + 1,
        b,
    )
}

proof fn lemma_root_open(lines: Seq<Seq<char>>, c: int, a: int, m: nat)
    requires
        0 <= c < a < m <= lines.len(),
        headings_titled(lines, a + 1),
        is_heading(lines[c]),
        is_heading(lines[a]),
        heading_count(lines, c) % 2 == 1,
        text_between(lines, c, a),
        text_between(lines, a, m as int),
    ensures
        spec_root_lines(lines, m).section == spec_trim_header_prefix(lines[a]),
        spec_root_lines(lines, m).body == root_section_lines(lines, c, a, m as int),
    decreases m,
{
    assert(spec_root_lines(lines, m) == spec_root_step(
        spec_root_lines(lines, (m - 1) as nat),
        lines[m - 1],
    ));
    if m == a + 1 {
        lemma_root_after_close(lines, c, a as nat);
        assert(root_section_lines(lines, c, a, m as int) =~= (seq![
            spec_replace(lines[c], optional_heading(), plain_heading()),
        ] + lines.subrange(c + 1, a)).push(
            spec_replace(lines[a], optional_heading(), plain_heading()),
        ));
    } else {
        lemma_root_open(lines, c, a, (m - 1) as nat);
        assert(is_text_line(lines[m - 1]));
        assert(root_section_lines(lines, c, a, m as int) =~= root_section_lines(
            lines,
            c,
            a,
            m - 1,
        ).push(lines[m - 1]));
    }
}

/// With the root reader, a heading that closes a section (an odd one, counting from the
/// first) makes the next heading open a section that the heading after it closes. That
/// section is named by its own heading's title and holds the closing heading, every line up
/// to its own heading, that heading and every line after it up to the next heading, blank
/// lines included (all headings up to its own being titled).
pub proof fn law_root_later_section(content: Seq<char>, file_name: Seq<char>, c: int, a: int, b: int)
    requires
        0 <= c < a < b < spec_lines(content).len(),
        headings_titled(spec_lines(content), a + 1),
        is_heading(spec_lines(content)[c]),
        heading_count(spec_lines(content), c) % 2 == 1,
        is_heading(spec_lines(content)[a]),
        is_heading(spec_lines(content)[b]),
        text_between(spec_lines(content), c, a),
        text_between(spec_lines(content), a, b),
    ensures
        exists|k: int|
            0 <= k < spec_root_template(content, file_name).content.len()
                && spec_root_template(content, file_name).content[k] == ({
                let title = spec_trim_header_prefix(spec_lines(content)[a]);
                BlockView {
                    name: spec_trim_start_matches(title, seq!['?']),
                    content: spec_join(
                        root_section_lines(spec_lines(content), c, a, b),
                        seq!['\n'],
                    ),
                    required: !spec_starts_with(title, seq!['?']),
                }
            }),
{
    let ls = spec_lines(content);
    lemma_root_open(ls, c, a, b as nat);
    assert(spec_trim_header_prefix(ls[a]).len() > 0);
    let before = spec_root_lines(ls, b as nat);
    let after = spec_root_lines(ls, (b + 1) as nat);
    assert(after == spec_root_step(before, ls[b]));
    lemma_root_blocks_grow(ls, (b + 1) as nat, ls.len());
    let k = before.blocks.len() as int;
    let title = spec_trim_header_prefix(ls[a]);
    let expected = BlockView {
        name: spec_trim_start_matches(title, seq!['?']),
        content: spec_join(root_section_lines(ls, c, a, b), seq!['\n']),
        required: !spec_starts_with(title, seq!['?']),
    };
    assert(before.section == title);
    assert(after.blocks == before.blocks.push(expected));
    assert(after.blocks[k] == expected);
    assert(spec_root_template(content, file_name).content[k] == expected);
}

} // verus!
