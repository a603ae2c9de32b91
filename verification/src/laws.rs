//! Properties of the template reader and of the text primitives that hold for every input.
use vstd::prelude::*;
use crate::template::{
    heading_mark, is_heading, is_placeholder_line, md_suffix, placeholder_lead, placeholders_tag,
    placeholders_lead, spec_placeholder_list, spec_close_block, spec_fill, spec_parse_lines,
    spec_custom_templates, spec_embedded_templates, spec_is_valid_filename, spec_parse_template,
    templates_view, ParseState, Template,
};
use crate::text::{
    lemma_split_nonempty, spec_join, spec_lines, spec_replace, spec_split, spec_starts_with,
    spec_strip_cr, spec_trim_end_matches, spec_trim_start_matches,
};
use crate::embedded::dir_files;
use crate::{spec_root_custom, spec_root_embedded, spec_root_lines, spec_root_template};
use include_dir::Dir;

verus! {

/// `p` occurs in `s` at position `i`.
pub open spec fn occurs_at(s: Seq<char>, p: Seq<char>, i: int) -> bool {
    0 <= i && i + p.len() <= s.len() && s.subrange(i, i + p.len()) == p
}

/// `p` occurs nowhere in `s`.
pub open spec fn absent(s: Seq<char>, p: Seq<char>) -> bool {
    forall|i: int| !#[trigger] occurs_at(s, p, i)
}

/// After removing every leading `p`, the text no longer starts with `p`.
pub proof fn lemma_trim_start_matches_done(s: Seq<char>, p: Seq<char>)
    requires
        p.len() > 0,
    ensures
        !spec_starts_with(spec_trim_start_matches(s, p), p),
    decreases s.len(),
{
    if spec_starts_with(s, p) {
        lemma_trim_start_matches_done(s.skip(p.len() as int), p);
    }
}

/// No block name of a parser state starts with `?`.
pub open spec fn names_unmarked(st: ParseState) -> bool {
    forall|k: int| 0 <= k < st.blocks.len() ==> !spec_starts_with(#[trigger] st.blocks[k].name, seq!['?'])
}

proof fn lemma_close_block_unmarked(section: Seq<char>, body: Seq<Seq<char>>)
    ensures
        !spec_starts_with(spec_close_block(section, body).name, seq!['?']),
{
    lemma_trim_start_matches_done(section, seq!['?']);
}

proof fn lemma_parse_lines_unmarked(lines: Seq<Seq<char>>, n: nat)
    ensures
        names_unmarked(spec_parse_lines(lines, n)),
    decreases n,
{
    if n > 0 {
        let prev = spec_parse_lines(lines, (n - 1) as nat);
        lemma_parse_lines_unmarked(lines, (n - 1) as nat);
        lemma_close_block_unmarked(prev.section, prev.body);
        lemma_close_block_unmarked(prev.section, prev.body.push(lines[n - 1]));
    }
}

proof fn lemma_root_lines_unmarked(lines: Seq<Seq<char>>, n: nat)
    ensures
        names_unmarked(spec_root_lines(lines, n)),
    decreases n,
{
    if n > 0 {
        let prev = spec_root_lines(lines, (n - 1) as nat);
        lemma_root_lines_unmarked(lines, (n - 1) as nat);
        lemma_close_block_unmarked(prev.section, prev.body);
    }
}

/// A section's name never starts with `?`: the `?` that marks a section optional is not
/// part of its name.
pub proof fn law_section_names_unmarked(content: Seq<char>, file_name: Seq<char>)
    ensures
        forall|k: int|
            0 <= k < spec_parse_template(content, file_name).content.len() ==> !spec_starts_with(
                #[trigger] spec_parse_template(content, file_name).content[k].name,
                seq!['?'],
            ),
        forall|k: int|
            0 <= k < spec_root_template(content, file_name).content.len()
                ==> !spec_starts_with(
                #[trigger] spec_root_template(content, file_name).content[k].name,
                seq!['?'],
            ),
{
    let ls = spec_lines(content);
    lemma_parse_lines_unmarked(ls, ls.len());
    lemma_root_lines_unmarked(ls, ls.len());
}

proof fn lemma_parse_lines_no_placeholders(lines: Seq<Seq<char>>, n: nat)
    requires
        n <= lines.len(),
        forall|i: int| 0 <= i < lines.len() ==> !is_placeholder_line(#[trigger] lines[i]),
    ensures
        spec_parse_lines(lines, n).placeholders.len() == 0,
        spec_root_lines(lines, n).placeholders.len() == 0,
    decreases n,
{
    if n > 0 {
        lemma_parse_lines_no_placeholders(lines, (n - 1) as nat);
        assert(!is_placeholder_line(lines[n - 1]));
    }
}

/// Placeholders are optional: a template with no placeholders line has no placeholders.
pub proof fn law_placeholders_optional(content: Seq<char>, file_name: Seq<char>)
    requires
        forall|i: int|
            0 <= i < spec_lines(content).len() ==> !is_placeholder_line(#[trigger] spec_lines(content)[i]),
    ensures
        spec_parse_template(content, file_name).placeholders.len() == 0,
        spec_root_template(content, file_name).placeholders.len() == 0,
{
    let ls = spec_lines(content);
    lemma_parse_lines_no_placeholders(ls, ls.len());
}

/// Replacing a pattern that does not occur leaves the text unchanged.
pub proof fn law_replace_absent(s: Seq<char>, p: Seq<char>, r: Seq<char>)
    requires
        p.len() > 0,
        absent(s, p),
    ensures
        spec_replace(s, p, r) == s,
    decreases s.len(),
{
    if s.len() >= p.len() {
        assert(!occurs_at(s, p, 0));
        assert(s.subrange(0, p.len() as int) == s.take(p.len() as int));
        let t = s.drop_first();
        assert forall|i: int| !#[trigger] occurs_at(t, p, i) by {
            if occurs_at(t, p, i) {
                assert(s.subrange(i + 1, i + 1 + p.len()) =~= t.subrange(i, i + p.len()));
                assert(occurs_at(s, p, i + 1));
            }
        }
        law_replace_absent(t, p, r);
        assert(s =~= seq![s[0]] + t);
    }
}

/// Filling in placeholders that do not occur in the text leaves it unchanged; in particular
/// a template without placeholders comes out as it went in.
pub proof fn law_fill_absent(content: Seq<char>, placeholders: Seq<Seq<char>>, answers: Seq<Seq<char>>)
    requires
        placeholders.len() == answers.len(),
        forall|i: int|
            0 <= i < placeholders.len() ==> (#[trigger] placeholders[i]).len() > 0 && absent(
                content,
                placeholders[i],
            ),
    ensures
        spec_fill(content, placeholders, answers) == content,
    decreases placeholders.len(),
{
    if placeholders.len() > 0 {
        let n = placeholders.len() - 1;
        assert forall|i: int| 0 <= i < placeholders.drop_last().len() implies (
        #[trigger] placeholders.drop_last()[i]).len() > 0 && absent(
            content,
            placeholders.drop_last()[i],
        ) by {
            assert(placeholders.drop_last()[i] == placeholders[i]);
        }
        law_fill_absent(content, placeholders.drop_last(), answers.drop_last());
        assert(placeholders[n].len() > 0 && absent(content, placeholders[n]));
        law_replace_absent(content, placeholders.last(), answers.last());
    }
}

/// Splitting at a character and joining the pieces with that character gives back the text.
pub proof fn law_split_join(s: Seq<char>, c: char)
    ensures
        spec_join(spec_split(s, c), seq![c]) == s,
    decreases s.len(),
{
    if s.len() > 0 {
        let init = spec_split(s.drop_last(), c);
        law_split_join(s.drop_last(), c);
        lemma_split_nonempty(s.drop_last(), c);
        if s.last() == c {
            let sp = init.push(Seq::<char>::empty());
            assert(sp.drop_last() =~= init);
            assert(s =~= s.drop_last() + seq![c] + Seq::<char>::empty());
        } else {
            let sp = init.update(init.len() - 1, init.last().push(s.last()));
            if init.len() == 1 {
                assert(s =~= init[0].push(s.last()));
            } else {
                assert(sp.drop_last() =~= init.drop_last());
                assert(spec_join(init, seq![c]) == spec_join(init.drop_last(), seq![c]) + seq![c]
                    + init.last());
                let front = spec_join(init.drop_last(), seq![c]) + seq![c];
                assert(s.drop_last() == front + init.last());
                assert(s =~= s.drop_last().push(s.last()));
                assert(s =~= front + init.last().push(s.last()));
            }
        }
    }
}

/// The name under which a template is listed is a beginning of the template's name, so
/// choosing it from the list always finds a template.
pub proof fn law_listed_name_matches(name: Seq<char>)
    ensures
        spec_starts_with(name, spec_trim_end_matches(name, md_suffix())),
    decreases name.len(),
{
    let md = md_suffix();
    if md.len() > 0 && name.len() >= md.len() && name.skip(name.len() - md.len()) == md {
        let rest = name.take(name.len() - md.len());
        law_listed_name_matches(rest);
        let t = spec_trim_end_matches(rest, md);
        assert(name.take(t.len() as int) =~= rest.take(t.len() as int));
    } else {
        assert(name.take(name.len() as int) =~= name);
    }
}

/// A final line ending adds no line: a text that does not end with a line ending has the
/// same lines as the text followed by `"\n"` (when it does not end with `'\r'` either) or by
/// `"\r\n"`.
pub proof fn law_final_line_ending(s: Seq<char>)
    requires
        s.len() > 0,
        s.last() != '\n',
    ensures
        s.last() != '\r' ==> spec_lines(s.push('\n')) == spec_lines(s),
        spec_lines(s.push('\r').push('\n')) == spec_lines(s),
{
    let p = spec_split(s, '\n');
    lemma_split_nonempty(s.drop_last(), '\n');
    lemma_split_nonempty(s, '\n');
    let init = spec_split(s.drop_last(), '\n');
    assert(p == init.update(init.len() - 1, init.last().push(s.last())));
    assert(p.last() == init.last().push(s.last()));
    assert(p.drop_last() =~= init.drop_last());
    let ended = p.drop_last().map_values(|l: Seq<char>| spec_strip_cr(l));
    assert(spec_lines(s) == ended.push(p.last()));
    // followed by "\n"
    let s1 = s.push('\n');
    assert(s1.drop_last() =~= s);
    let p1 = spec_split(s1, '\n');
    assert(p1 == p.push(Seq::<char>::empty()));
    assert(p1.drop_last() =~= p);
    if s.last() != '\r' {
        assert(spec_strip_cr(p.last()) == p.last());
        assert(p.map_values(|l: Seq<char>| spec_strip_cr(l)) =~= ended.push(p.last()));
    }
    // followed by "\r\n"
    let s2 = s.push('\r');
    let s3 = s2.push('\n');
    assert(s2.drop_last() =~= s);
    assert(s3.drop_last() =~= s2);
    let q = spec_split(s2, '\n');
    assert(q == p.update(p.len() - 1, p.last().push('\r')));
    let p3 = spec_split(s3, '\n');
    assert(p3 == q.push(Seq::<char>::empty()));
    assert(p3.drop_last() =~= q);
    assert(spec_strip_cr(p.last().push('\r')) =~= p.last());
    assert(q.map_values(|l: Seq<char>| spec_strip_cr(l)) =~= ended.push(p.last()));
}

/// A placeholders line is never a heading.
pub proof fn lemma_placeholder_line_not_heading(line: Seq<char>)
    ensures
        is_placeholder_line(line) ==> !is_heading(line),
{
    if is_placeholder_line(line) && is_heading(line) {
        assert(line.take(2)[0] == line[0]);
        assert(heading_mark()[0] == '#');
        if spec_starts_with(line, placeholders_tag()) {
            assert(line.take(placeholders_tag().len() as int)[0] == line[0]);
            assert(placeholders_tag()[0] == 'P');
        } else {
            assert(line.take(placeholder_lead().len() as int)[0] == line[0]);
            assert(placeholder_lead()[0] == 'P');
        }
    }
}

proof fn lemma_placeholders_kept(lines: Seq<Seq<char>>, k: int, m: nat)
    requires
        0 <= k < m <= lines.len(),
        k < lines.len() - 1,
        is_placeholder_line(lines[k]),
        forall|j: int| k < j < lines.len() - 1 ==> !is_placeholder_line(#[trigger] lines[j]),
    ensures
        spec_parse_lines(lines, m).placeholders == spec_placeholder_list(lines[k]),
    decreases m,
{
    lemma_placeholder_line_not_heading(lines[k]);
    if m > k + 1 {
        lemma_placeholders_kept(lines, k, (m - 1) as nat);
        if m - 1 < lines.len() - 1 {
            assert(!is_placeholder_line(lines[m - 1]));
        }
    }
}

proof fn lemma_root_placeholders_kept(lines: Seq<Seq<char>>, k: int, m: nat)
    requires
        0 <= k < m <= lines.len(),
        is_placeholder_line(lines[k]),
        forall|j: int| k < j < lines.len() ==> !is_placeholder_line(#[trigger] lines[j]),
    ensures
        spec_root_lines(lines, m).placeholders == spec_placeholder_list(lines[k]),
    decreases m,
{
    lemma_placeholder_line_not_heading(lines[k]);
    if m > k + 1 {
        lemma_root_placeholders_kept(lines, k, (m - 1) as nat);
        assert(!is_placeholder_line(lines[m - 1]));
    }
}

/// The last placeholders line wins: the template's placeholders are those that the last
/// placeholders line lists. For the template reader that line must not be the template's
/// last line, which always belongs to the last section.
pub proof fn law_last_placeholders_line_wins(content: Seq<char>, file_name: Seq<char>, k: int)
    requires
        0 <= k < spec_lines(content).len(),
        is_placeholder_line(spec_lines(content)[k]),
        forall|j: int|
            k < j < spec_lines(content).len() ==> !is_placeholder_line(
                #[trigger] spec_lines(content)[j],
            ),
    ensures
        spec_root_template(content, file_name).placeholders == spec_placeholder_list(
            spec_lines(content)[k],
        ),
        k < spec_lines(content).len() - 1 ==> spec_parse_template(content, file_name).placeholders
            == spec_placeholder_list(spec_lines(content)[k]),
{
    let ls = spec_lines(content);
    lemma_root_placeholders_kept(ls, k, ls.len());
    if k < ls.len() - 1 {
        lemma_placeholders_kept(ls, k, ls.len());
    }
}

/// Loading the built-in templates twice gives the same templates: nothing is read at run
/// time, so what a load gives depends on the embedded directory alone. `first` and `second`
/// are what two loads of `dir` returned (with either reader).
pub proof fn law_embedded_loads_agree(dir: Dir<'static>, first: Seq<Template>, second: Seq<Template>)
    requires
        templates_view(first) == spec_embedded_templates(dir_files(dir))
            && templates_view(second) == spec_embedded_templates(dir_files(dir))
            || templates_view(first) == spec_root_embedded(dir_files(dir))
            && templates_view(second) == spec_root_embedded(dir_files(dir)),
    ensures
        templates_view(first) == templates_view(second),
{
}

/// Filling in one placeholder replaces each of its occurrences, from the left and without
/// overlap, by the answer, whatever the answer is (the offered default too).
pub proof fn law_fill_one(content: Seq<char>, p: Seq<char>, a: Seq<char>)
    ensures
        spec_fill(content, seq![p], seq![a]) == spec_replace(content, p, a),
{
    let e = Seq::<Seq<char>>::empty();
    assert(seq![p].drop_last() =~= e);
    assert(seq![a].drop_last() =~= e);
    assert(spec_fill(content, e, e) == content);
    assert(seq![p].last() == p);
    assert(seq![a].last() == a);
}

/// Placeholders are filled in one after the other: the last one is filled in the text that
/// the ones before it gave.
pub proof fn law_fill_in_order(
    content: Seq<char>,
    placeholders: Seq<Seq<char>>,
    answers: Seq<Seq<char>>,
    p: Seq<char>,
    a: Seq<char>,
)
    requires
        placeholders.len() == answers.len(),
    ensures
        spec_fill(content, placeholders.push(p), answers.push(a)) == spec_replace(
            spec_fill(content, placeholders, answers),
            p,
            a,
        ),
{
    assert(placeholders.push(p).drop_last() =~= placeholders);
    assert(answers.push(a).drop_last() =~= answers);
}

proof fn lemma_replace_after_plain_prefix(x: Seq<char>, p: Seq<char>, y: Seq<char>, a: Seq<char>)
    requires
        p.len() > 0,
        forall|i: int| 0 <= i < x.len() ==> !#[trigger] occurs_at(x + p + y, p, i),
        absent(y, p),
    ensures
        spec_replace(x + p + y, p, a) == x + a + y,
    decreases x.len(),
{
    let s = x + p + y;
    if x.len() == 0 {
        assert(s =~= p + y);
        assert(s.take(p.len() as int) =~= p);
        assert(s.skip(p.len() as int) =~= y);
        law_replace_absent(y, p, a);
        assert(x + a + y =~= a + y);
    } else {
        assert(!occurs_at(s, p, 0));
        assert(s.subrange(0, p.len() as int) == s.take(p.len() as int));
        let x1 = x.drop_first();
        assert(s.drop_first() =~= x1 + p + y);
        assert forall|i: int| 0 <= i < x1.len() implies !#[trigger] occurs_at(x1 + p + y, p, i) by {
            assert(!occurs_at(s, p, i + 1));
            if occurs_at(x1 + p + y, p, i) {
                assert(s.subrange(i + 1, i + 1 + p.len()) =~= (x1 + p + y).subrange(
                    i,
                    i + p.len(),
                ));
            }
        }
        lemma_replace_after_plain_prefix(x1, p, y, a);
        assert(x + a + y =~= seq![s[0]] + (x1 + a + y));
    }
}

/// A placeholder that occurs once in the text, in `x + p + y`, is replaced there by the
/// answer and the rest of the text is kept: filling gives `x + a + y`.
pub proof fn law_fill_single_occurrence(x: Seq<char>, p: Seq<char>, y: Seq<char>, a: Seq<char>)
    requires
        p.len() > 0,
        forall|i: int| 0 <= i < x.len() ==> !#[trigger] occurs_at(x + p + y, p, i),
        absent(y, p),
    ensures
        spec_fill(x + p + y, seq![p], seq![a]) == x + a + y,
{
    law_fill_one(x + p + y, p, a);
    lemma_replace_after_plain_prefix(x, p, y, a);
}

/// A text that is just a placeholder becomes the answer given for it, whatever that is.
pub proof fn law_fill_whole_placeholder(p: Seq<char>, a: Seq<char>)
    requires
        p.len() > 0,
    ensures
        spec_fill(p, seq![p], seq![a]) == a,
{
    let e = Seq::<char>::empty();
    assert(absent(e, p));
    law_fill_single_occurrence(e, p, e, a);
    assert(e + p + e =~= p);
    assert(e + a + e =~= a);
}

/// The characters a file name may hold: the ASCII characters from the space to `~`, except
/// `< > : \\ " / | ? *`.
pub open spec fn allowed_in_filename(c: char) -> bool {
    &&& c <= '\u{7f}'
    &&& c as u32 >= 32
    &&& c as u32 != 127
    &&& c != '<' && c != '>' && c != ':' && c != '\\' && c != '"' && c != '/' && c != '|'
    &&& c != '?' && c != '*'
}

proof fn lemma_allowed_char(c: char)
    ensures
        allowed_in_filename(c) <==> ('\0' <= c <= '\u{7f}' && !crate::template::is_forbidden_char(c)
            && !crate::template::spec_is_control(c)),
{
    assert(c <= '\u{7f}' ==> (c as u32) <= 127);
    assert('\0' <= c);
}

/// A file name is valid exactly when every character of it is allowed: it is ASCII and holds
/// none of `< > : \\ " / | ? *` and no control character (U+0000 to U+001F, U+007F).
pub proof fn law_valid_filename_chars(name: Seq<char>)
    ensures
        spec_is_valid_filename(name) <==> forall|i: int|
            0 <= i < name.len() ==> allowed_in_filename(#[trigger] name[i]),
{
    assert forall|i: int| 0 <= i < name.len() implies allowed_in_filename(#[trigger] name[i]) <==> (
    '\0' <= name[i] <= '\u{7f}' && !crate::template::is_forbidden_char(name[i])
        && !crate::template::spec_is_control(name[i])) by {
        lemma_allowed_char(name[i]);
    }
}

/// A name made of ASCII letters, digits, spaces, `-`, `_` and `.` is a valid file name.
pub proof fn law_plain_names_valid(name: Seq<char>)
    requires
        forall|i: int|
            0 <= i < name.len() ==> {
                let c = #[trigger] name[i];
                ||| 'a' <= c <= 'z'
                ||| 'A' <= c <= 'Z'
                ||| '0' <= c <= '9'
                ||| c == ' ' || c == '-' || c == '_' || c == '.'
            },
    ensures
        spec_is_valid_filename(name),
{
}

/// Every loader gives one template per file, in the files' order, each named by its file
/// and read from that file's text: the `i`-th template comes from the `i`-th file.
pub proof fn law_templates_named_by_file(
    files: Seq<(Seq<char>, Seq<char>)>,
    embedded: Seq<(Seq<char>, Option<Seq<char>>)>,
)
    ensures
        spec_custom_templates(files).len() == files.len(),
        spec_root_custom(files).len() == files.len(),
        forall|i: int|
            0 <= i < files.len() ==> (#[trigger] spec_custom_templates(files)[i]).name == files[i].0
                && spec_root_custom(files)[i].name == files[i].0,
        forall|i: int|
            0 <= i < files.len() ==> #[trigger] spec_custom_templates(files)[i] == spec_parse_template(
                files[i].1,
                files[i].0,
            ) && spec_root_custom(files)[i] == spec_root_template(files[i].1, files[i].0),
        spec_embedded_templates(embedded).len() == embedded.len(),
        spec_root_embedded(embedded).len() == embedded.len(),
        forall|i: int|
            0 <= i < embedded.len() ==> (#[trigger] spec_embedded_templates(embedded)[i]).name
                == embedded[i].0 && spec_root_embedded(embedded)[i].name == embedded[i].0,
        forall|i: int|
            0 <= i < embedded.len() ==> #[trigger] spec_embedded_templates(embedded)[i]
                == spec_parse_template(embedded[i].1.unwrap(), embedded[i].0) && spec_root_embedded(
                embedded,
            )[i] == spec_root_template(embedded[i].1.unwrap(), embedded[i].0),
{
}

/// No piece of a split holds the character split at.
pub proof fn law_split_pieces_free(s: Seq<char>, c: char)
    ensures
        forall|k: int| 0 <= k < spec_split(s, c).len() ==> !(#[trigger] spec_split(s, c)[k]).contains(c),
    decreases s.len(),
{
    if s.len() > 0 {
        law_split_pieces_free(s.drop_last(), c);
        lemma_split_nonempty(s.drop_last(), c);
        let init = spec_split(s.drop_last(), c);
        if s.last() != c {
            let last = init.last().push(s.last());
            assert forall|j: int| 0 <= j < last.len() implies last[j] != c by {
                if j < init.last().len() {
                    assert(last[j] == init.last()[j]);
                    assert(!init[init.len() - 1].contains(c));
                }
            }
        }
    }
}

/// A placeholders line `Placeholders: x` lists the comma-separated parts of `x`: none of them
/// holds a comma, and joined with commas they give back `x`.
pub proof fn law_placeholders_line_parts(x: Seq<char>)
    requires
        !spec_starts_with(x, placeholders_lead()),
    ensures
        spec_placeholder_list(placeholders_lead() + x) == spec_split(x, ','),
        spec_join(spec_placeholder_list(placeholders_lead() + x), seq![',']) == x,
        forall|k: int|
            0 <= k < spec_placeholder_list(placeholders_lead() + x).len() ==> !(
            #[trigger] spec_placeholder_list(placeholders_lead() + x)[k]).contains(','),
{
    let line = placeholders_lead() + x;
    let lead = placeholders_lead();
    assert(line.take(placeholders_tag().len() as int) =~= placeholders_tag());
    assert(line.take(lead.len() as int) =~= lead);
    assert(line.skip(lead.len() as int) =~= x);
    assert(spec_trim_start_matches(x, lead) == x);
    law_split_join(x, ',');
    law_split_pieces_free(x, ',');
}

} // verus!
