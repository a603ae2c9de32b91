//! Generates README files from markdown templates. A template is split into sections at
//! its `##` headings; the user chooses the sections to keep and fills in the template's
//! placeholders.
//!
//! The crate root holds a simpler template reader, in which a heading either closes the open
//! section or opens a new one, and loaders built on it; [`template`] holds the reader that
//! the program uses.
pub mod embedded;
pub mod laws;
pub mod output;
pub mod section_laws;
pub mod template;
pub mod text;
pub mod ui;

use vstd::prelude::*;
use include_dir::Dir;
use crate::embedded::{all_text, dir_files, embedded_files};
use crate::template::{
    close_block, header_title, heading_mark, initial_state, is_heading, is_placeholder_line,
    is_placeholder_start, optional_heading, placeholder_list, plain_heading, spec_close_block,
    spec_placeholder_list, spec_trim_header_prefix, templates_view, ParseState, TemplateView,
};
use crate::text::{
    chars_of, lemma_chars_deep_view, lines, replace, same_text, spec_lines, spec_replace,
    starts_with,
};

pub use crate::template::{Block, Template};

verus! {

/// One line read by the root reader. A heading closes the open section and
/// leaves the next one untitled, so every second heading starts a section; the last section
/// is never closed.
pub open spec fn spec_root_step(st: ParseState, line: Seq<char>) -> ParseState {
    if is_heading(line) {
        let shown = spec_replace(line, optional_heading(), plain_heading());
        if st.section.len() > 0 {
            ParseState {
                blocks: st.blocks.push(spec_close_block(st.section, st.body)),
                body: seq![shown],
                section: Seq::empty(),
                placeholders: st.placeholders,
            }
        } else {
            ParseState {
                body: st.body.push(shown),
                section: spec_trim_header_prefix(line),
                ..st
            }
        }
    } else if is_placeholder_line(line) {
        ParseState { placeholders: spec_placeholder_list(line), ..st }
    } else {
        ParseState { body: st.body.push(line), ..st }
    }
}

/// The state of the root reader after the first `n` of `lines`.
pub open spec fn spec_root_lines(lines: Seq<Seq<char>>, n: nat) -> ParseState
    decreases n,
{
    if n == 0 {
        initial_state()
    } else {
        spec_root_step(spec_root_lines(lines, (n - 1) as nat), lines[n - 1])
    }
}

/// The template that the root reader makes of `content`.
pub open spec fn spec_root_template(content: Seq<char>, file_name: Seq<char>) -> TemplateView {
    let lines = spec_lines(content);
    let st = spec_root_lines(lines, lines.len());
    TemplateView { name: file_name, content: st.blocks, placeholders: st.placeholders }
}

/// The root reader: like [`template::parse_raw_template_string`], but a heading that
/// comes while a titled section is open only closes it, and the last section is never closed.
pub fn parse_raw_template_string(content: String, file_name: String) -> (r: Result<
    Template,
    String,
>)
    ensures
        r matches Ok(t) && t@ == spec_root_template(content@, file_name@),
{
    let chars = chars_of(content.as_str());
    let lines = lines(&chars);
    let ghost ls = lines.deep_view();
    let n = lines.len();
    let mark = vec!['#', '#'];
    let optional = vec!['#', '#', ' ', '?'];
    let plain = vec!['#', '#', ' '];
    assert(mark@ =~= heading_mark());
    assert(optional@ =~= optional_heading());
    assert(plain@ =~= plain_heading());
    let mut blocks: Vec<Block> = Vec::new();
    let mut body: Vec<Vec<char>> = Vec::new();
    let mut section: Vec<char> = Vec::new();
    let mut placeholders: Vec<String> = Vec::new();
    for i in 0..n
        invariant
            n == lines.len(),
            ls == lines.deep_view(),
            ls == spec_lines(content@),
            mark@ == heading_mark(),
            optional@ == optional_heading(),
            plain@ == plain_heading(),
            ({
                let st = spec_root_lines(ls, i as nat);
                &&& blocks@.map_values(|b: Block| b@) == st.blocks
                &&& body.deep_view() == st.body
                &&& section@ == st.section
                &&& placeholders.deep_view() == st.placeholders
            }),
    {
        let line = &lines[i];
        let ghost st = spec_root_lines(ls, i as nat);
        let ghost old_blocks = blocks@;
        let ghost old_body = body.deep_view();
        assert(ls[i as int] == line@);
        if starts_with(line, &mark) {
            let shown = replace(line, &optional, &plain);
            proof {
                lemma_chars_deep_view(&shown);
            }
            if section.len() > 0 {
                let b = close_block(&section, &body);
                blocks.push(b);
                assert(blocks@.map_values(|b: Block| b@) =~= old_blocks.map_values(
                    |b: Block| b@,
                ).push(spec_close_block(st.section, st.body)));
                let ghost sv = shown@;
                body = Vec::new();
                body.push(shown);
                assert(body.deep_view() =~= seq![sv]);
                section = Vec::new();
            } else {
                let ghost sv = shown@;
                body.push(shown);
                assert(body.deep_view() =~= old_body.push(sv));
                section = header_title(line);
            }
        } else if is_placeholder_start(line) {
            placeholders = placeholder_list(line);
        } else {
            let copy = line.clone();
            proof {
                lemma_chars_deep_view(&copy);
            }
            body.push(copy);
            assert(body.deep_view() =~= old_body.push(line@));
        }
    }
    Ok(Template { name: file_name, content: blocks, placeholders: placeholders })
}

/// The template that the root reader makes of a file.
fn parse_root(content: String, file_name: String) -> (t: Template)
    ensures
        t@ == spec_root_template(content@, file_name@),
{
    match parse_raw_template_string(content, file_name) {
        Ok(t) => t,
        Err(_) => {
            assert(false);
            Template { name: String::new(), content: Vec::new(), placeholders: Vec::new() }
        },
    }
}

/// The templates that the root reader makes of the embedded files.
pub open spec fn spec_root_embedded(files: Seq<(Seq<char>, Option<Seq<char>>)>) -> Seq<
    TemplateView,
> {
    files.map_values(
        |f: (Seq<char>, Option<Seq<char>>)| spec_root_template(f.1.unwrap(), f.0),
    )
}

/// The templates embedded in `dir`, read with the root reader. Every file
/// must be text.
pub fn load_standard_templates(dir: &Dir<'static>) -> (ts: Vec<Template>)
    requires
        all_text(dir_files(*dir)),
    ensures
        templates_view(ts@) == spec_root_embedded(dir_files(*dir)),
{
    let files = embedded_files(dir);
    let ghost fv = files.deep_view();
    let mut out: Vec<Template> = Vec::new();
    for i in 0..files.len()
        invariant
            fv == files.deep_view(),
            fv == dir_files(*dir),
            all_text(fv),
            templates_view(out@) == spec_root_embedded(fv.take(i as int)),
    {
        let ghost old_out = out@;
        assert(fv[i as int] == files[i as int].deep_view());
        assert(fv[i as int].1 is Some);
        if let Some(text) = &files[i].1 {
            let t = parse_root(text.clone(), files[i].0.clone());
            out.push(t);
            assert(fv.take(i + 1) =~= fv.take(i as int).push(fv[i as int]));
            assert(templates_view(out@) =~= templates_view(old_out).push(t@));
            assert(spec_root_embedded(fv.take(i + 1)) =~= spec_root_embedded(
                fv.take(i as int),
            ).push(t@));
        }
    }
    assert(fv.take(files.len() as int) =~= fv);
    out
}

/// The templates embedded in `dir` as [`load_standard_templates`] reads them, or `None` when
/// a file of `dir` is not text.
pub fn try_load_standard_templates(dir: &Dir<'static>) -> (r: Option<Vec<Template>>)
    ensures
        r is Some <==> all_text(dir_files(*dir)),
        r matches Some(ts) ==> templates_view(ts@) == spec_root_embedded(dir_files(*dir)),
{
    let files = embedded_files(dir);
    let ghost fv = files.deep_view();
    for i in 0..files.len()
        invariant
            fv == files.deep_view(),
            fv == dir_files(*dir),
            forall|j: int| 0 <= j < i ==> (#[trigger] fv[j]).1 is Some,
    {
        assert(fv[i as int] == files[i as int].deep_view());
        if files[i].1.is_none() {
            return None;
        }
    }
    Some(load_standard_templates(dir))
}

/// The templates that the root reader makes of the markdown files `files`
/// (file name and text, in the order the directory was read).
pub open spec fn spec_root_custom(files: Seq<(Seq<char>, Seq<char>)>) -> Seq<TemplateView> {
    files.map_values(|f: (Seq<char>, Seq<char>)| spec_root_template(f.1, f.0))
}

/// The templates of the markdown files `files` (file name and text), read with the root
/// reader.
pub fn load_custom_templates(files: Vec<(String, String)>) -> (ts: Vec<Template>)
    ensures
        templates_view(ts@) == spec_root_custom(files.deep_view()),
{
    let ghost fv = files.deep_view();
    let mut out: Vec<Template> = Vec::new();
    for i in 0..files.len()
        invariant
            fv == files.deep_view(),
            templates_view(out@) == spec_root_custom(fv.take(i as int)),
    {
        assert(fv[i as int] == files[i as int].deep_view());
        let ghost old_out = out@;
        let t = parse_root(files[i].1.clone(), files[i].0.clone());
        out.push(t);
        assert(fv.take(i + 1) =~= fv.take(i as int).push(fv[i as int]));
        assert(templates_view(out@) =~= templates_view(old_out).push(t@));
        assert(spec_root_custom(fv.take(i + 1)) =~= spec_root_custom(
            fv.take(i as int),
        ).push(t@));
    }
    assert(fv.take(files.len() as int) =~= fv);
    out
}

/// The two kinds of template offered first.
pub open spec fn spec_template_categories() -> Seq<Seq<char>> {
    seq!["Standard"@, "Custom"@]
}

/// The two kinds of template offered first: `Standard` and `Custom`.
pub fn template_categories() -> (modes: Vec<String>)
    ensures
        modes.deep_view() == spec_template_categories(),
{
    let modes = vec!["Standard".to_owned(), "Custom".to_owned()];
    assert(modes.deep_view() =~= spec_template_categories());
    modes
}

/// The kind of template that the user picked: `selection` is the position of the choice
/// among [`template_categories`].
pub fn get_template_selection(selection: usize) -> (mode: String)
    requires
        selection < 2,
    ensures
        mode@ == spec_template_categories()[selection as int],
{
    let modes = template_categories();
    assert(modes.deep_view().len() == 2);
    assert(modes.deep_view()[selection as int] == modes@[selection as int]@);
    modes[selection].clone()
}

/// Whether the chosen kind of template asks for the user's own templates: exactly `Custom`.
/// Any other choice means the built-in templates.
pub fn is_custom_category(mode: &str) -> (b: bool)
    ensures
        b == (mode@ == "Custom"@),
{
    same_text(mode, "Custom")
}

/// Whether a mode of the root dialogue asks for the built-in templates: exactly `standard`
/// (lower case). Any other mode means the user's own templates.
pub fn is_standard_mode(mode: &str) -> (b: bool)
    ensures
        b == (mode@ == "standard"@),
{
    same_text(mode, "standard")
}

} // verus!
