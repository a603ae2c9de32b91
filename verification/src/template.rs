//! Templates: a markdown text split into sections ("blocks") at its `##`
//! headings, with an optional list of placeholders to fill in.
use vstd::prelude::*;
use vstd::utf8::is_ascii_chars;
use crate::embedded::{all_text, dir_files, embedded_files};
use include_dir::Dir;
use crate::text::{
    chars_of, join, lemma_chars_deep_view, lines, push_all, replace, spec_join, spec_lines,
    spec_replace, spec_split, spec_starts_with, spec_trim_end_matches, spec_trim_start,
    spec_trim_start_matches, split, starts_with, string_of, trim_end_matches, trim_start,
    trim_start_matches,
};

verus! {

/// One section of a template.
#[derive(Debug)]
pub struct Block {
    pub name: String,
    pub content: String,
    pub required: bool,
}

/// A named template: its sections in order and its placeholders.
#[derive(Debug)]
pub struct Template {
    pub name: String,
    pub content: Vec<Block>,
    pub placeholders: Vec<String>,
}

/// The mathematical value of a [`Block`].
pub struct BlockView {
    pub name: Seq<char>,
    pub content: Seq<char>,
    pub required: bool,
}

/// The mathematical value of a [`Template`].
pub struct TemplateView {
    pub name: Seq<char>,
    pub content: Seq<BlockView>,
    pub placeholders: Seq<Seq<char>>,
}

impl View for Block {
    type V = BlockView;

    open spec fn view(&self) -> BlockView {
        BlockView { name: self.name@, content: self.content@, required: self.required }
    }
}

impl View for Template {
    type V = TemplateView;

    open spec fn view(&self) -> TemplateView {
        TemplateView {
            name: self.name@,
            content: self.content@.map_values(|b: Block| b@),
            placeholders: self.placeholders.deep_view(),
        }
    }
}

/// The views of a sequence of templates.
pub open spec fn templates_view(ts: Seq<Template>) -> Seq<TemplateView> {
    ts.map_values(|t: Template| t@)
}

// ---------------------------------------------------------------------------
// The template format
// ---------------------------------------------------------------------------

/// `"##"`: a line that starts with it opens a new section.
pub open spec fn heading_mark() -> Seq<char> {
    seq!['#', '#']
}

/// `"## ?"`, the start of an optional section's heading.
pub open spec fn optional_heading() -> Seq<char> {
    seq!['#', '#', ' ', '?']
}

/// `"## "`, what an optional section's heading becomes in its content.
pub open spec fn plain_heading() -> Seq<char> {
    seq!['#', '#', ' ']
}

/// The line separator used when a section's lines are put back together.
pub open spec fn newline() -> Seq<char> {
    seq!['\n']
}

/// A line starting with this names the template's placeholders.
pub open spec fn placeholders_tag() -> Seq<char> {
    seq!['P', 'l', 'a', 'c', 'e', 'h', 'o', 'l', 'd', 'e', 'r', 's']
}

/// What is cut off the front of a placeholders line.
pub open spec fn placeholders_lead() -> Seq<char> {
    placeholders_tag() + seq![':', ' ']
}

/// The singular form of the placeholders line, `Placeholder: `.
pub open spec fn placeholder_lead() -> Seq<char> {
    seq!['P', 'l', 'a', 'c', 'e', 'h', 'o', 'l', 'd', 'e', 'r', ':', ' ']
}

/// A heading line with its leading `#`s and then its leading whitespace removed.
pub open spec fn spec_trim_header_prefix(line: Seq<char>) -> Seq<char> {
    spec_trim_start(spec_trim_start_matches(line, seq!['#']))
}

/// The line opens a new section.
pub open spec fn is_heading(line: Seq<char>) -> bool {
    spec_starts_with(line, heading_mark())
}

/// The line lists the template's placeholders: it starts with `Placeholders`, or with the
/// singular `Placeholder: `.
pub open spec fn is_placeholder_line(line: Seq<char>) -> bool {
    spec_starts_with(line, placeholders_tag()) || spec_starts_with(line, placeholder_lead())
}

/// The placeholders that a placeholders line lists, separated by commas.
pub open spec fn spec_placeholder_list(line: Seq<char>) -> Seq<Seq<char>> {
    let rest = if spec_starts_with(line, placeholders_tag()) {
        spec_trim_start_matches(line, placeholders_lead())
    } else {
        spec_trim_start_matches(line, placeholder_lead())
    };
    spec_split(rest, ',')
}

/// The block that a section named `section` with the lines `body` becomes: a name that
/// starts with `?` marks the section optional, and the `?`s are not part of its name.
pub open spec fn spec_close_block(section: Seq<char>, body: Seq<Seq<char>>) -> BlockView {
    BlockView {
        name: spec_trim_start_matches(section, seq!['?']),
        content: spec_join(body, newline()),
        required: !spec_starts_with(section, seq!['?']),
    }
}

/// The state of the parser between two lines.
pub struct ParseState {
    /// The sections closed so far.
    pub blocks: Seq<BlockView>,
    /// The lines of the section being read.
    pub body: Seq<Seq<char>>,
    /// The title of the section being read; empty before the first titled heading.
    pub section: Seq<char>,
    /// The placeholders named so far (the last placeholders line wins).
    pub placeholders: Seq<Seq<char>>,
}

/// The parser state before the first line.
pub open spec fn initial_state() -> ParseState {
    ParseState {
        blocks: Seq::empty(),
        body: Seq::empty(),
        section: Seq::empty(),
        placeholders: Seq::empty(),
    }
}

/// One line read by the parser; `is_last` tells whether it is the template's last line.
pub open spec fn spec_parse_step(st: ParseState, line: Seq<char>, is_last: bool) -> ParseState {
    if is_heading(line) {
        let blocks = if st.section.len() > 0 {
            st.blocks.push(spec_close_block(st.section, st.body))
        } else {
            st.blocks
        };
        let body = if st.section.len() > 0 {
            Seq::<Seq<char>>::empty()
        } else {
            st.body
        };
        ParseState {
            blocks: blocks,
            body: body.push(spec_replace(line, optional_heading(), plain_heading())),
            section: spec_trim_header_prefix(line),
            placeholders: st.placeholders,
        }
    } else if is_last {
        let body = st.body.push(line);
        ParseState {
            blocks: st.blocks.push(spec_close_block(st.section, body)),
            body: body,
            section: st.section,
            placeholders: st.placeholders,
        }
    } else if is_placeholder_line(line) {
        ParseState { placeholders: spec_placeholder_list(line), ..st }
    } else {
        ParseState { body: st.body.push(line), ..st }
    }
}

/// The parser state after the first `n` of `lines`.
pub open spec fn spec_parse_lines(lines: Seq<Seq<char>>, n: nat) -> ParseState
    decreases n,
{
    if n == 0 {
        initial_state()
    } else {
        spec_parse_step(
            spec_parse_lines(lines, (n - 1) as nat),
            lines[n - 1],
            n == lines.len(),
        )
    }
}

/// The template that the text `content` of the file `file_name` describes.
pub open spec fn spec_parse_template(content: Seq<char>, file_name: Seq<char>) -> TemplateView {
    let lines = spec_lines(content);
    let st = spec_parse_lines(lines, lines.len());
    TemplateView { name: file_name, content: st.blocks, placeholders: st.placeholders }
}

// ---------------------------------------------------------------------------
// Executable parsing
// ---------------------------------------------------------------------------

/// The strings made of each piece of `parts`.
pub fn strings_of(parts: &Vec<Vec<char>>) -> (out: Vec<String>)
    ensures
        out.deep_view() == parts.deep_view(),
{
    let mut out: Vec<String> = Vec::new();
    for i in 0..parts.len()
        invariant
            out.deep_view() == parts.deep_view().take(i as int),
    {
        let ghost old_out = out.deep_view();
        proof {
            lemma_chars_deep_view(&parts[i as int]);
        }
        let s = string_of(&parts[i]);
        let ghost sv = s@;
        out.push(s);
        assert(out.deep_view() =~= old_out.push(sv));
        assert(parts.deep_view().take(i + 1) =~= parts.deep_view().take(i as int).push(
            parts.deep_view()[i as int],
        ));
        assert(out.deep_view() =~= parts.deep_view().take(i + 1));
    }
    assert(parts.deep_view().take(parts.len() as int) =~= parts.deep_view());
    out
}

/// A heading line with its leading `#`s and then its leading whitespace removed.
pub fn trim_header_prefix(line: &str) -> (out: String)
    ensures
        out@ == spec_trim_header_prefix(line@),
{
    let chars = chars_of(line);
    let hashes = vec!['#'];
    assert(hashes@ =~= seq!['#']);
    let no_hashes = trim_start_matches(&chars, &hashes);
    string_of(&trim_start(&no_hashes))
}

/// The title of a heading line.
pub(crate) fn header_title(line: &Vec<char>) -> (out: Vec<char>)
    ensures
        out@ == spec_trim_header_prefix(line@),
{
    let hashes = vec!['#'];
    assert(hashes@ =~= seq!['#']);
    let no_hashes = trim_start_matches(line, &hashes);
    trim_start(&no_hashes)
}

/// The placeholders that a placeholders line lists.
pub(crate) fn placeholder_list(line: &Vec<char>) -> (out: Vec<String>)
    ensures
        out.deep_view() == spec_placeholder_list(line@),
{
    let tag = vec!['P', 'l', 'a', 'c', 'e', 'h', 'o', 'l', 'd', 'e', 'r', 's'];
    let rest = if starts_with(line, &tag) {
        let lead = vec!['P', 'l', 'a', 'c', 'e', 'h', 'o', 'l', 'd', 'e', 'r', 's', ':', ' '];
        assert(lead@ == placeholders_lead());
        trim_start_matches(line, &lead)
    } else {
        let lead = vec!['P', 'l', 'a', 'c', 'e', 'h', 'o', 'l', 'd', 'e', 'r', ':', ' '];
        trim_start_matches(line, &lead)
    };
    strings_of(&split(&rest, ','))
}

/// Whether the line lists the template's placeholders.
pub(crate) fn is_placeholder_start(line: &Vec<char>) -> (b: bool)
    ensures
        b == is_placeholder_line(line@),
{
    let tag = vec!['P', 'l', 'a', 'c', 'e', 'h', 'o', 'l', 'd', 'e', 'r', 's'];
    let lead = vec!['P', 'l', 'a', 'c', 'e', 'h', 'o', 'l', 'd', 'e', 'r', ':', ' '];
    starts_with(line, &tag) || starts_with(line, &lead)
}

/// The block made of a section's title and lines.
pub(crate) fn close_block(section: &Vec<char>, body: &Vec<Vec<char>>) -> (b: Block)
    ensures
        b@ == spec_close_block(section@, body.deep_view()),
{
    let mark = vec!['?'];
    assert(mark@ =~= seq!['?']);
    let name = trim_start_matches(section, &mark);
    let sep = vec!['\n'];
    assert(sep@ =~= newline());
    let content = join(body, &sep);
    Block {
        name: string_of(&name),
        content: string_of(&content),
        required: !starts_with(section, &mark),
    }
}

/// Parses the text `content` of the template file `file_name`: a line that starts with
/// `##` closes the section being read (when it has a title) and opens one titled by the
/// rest of the heading; a placeholders line lists the placeholders; every other line belongs
/// to the current section. The last line, unless it is a heading, closes the current
/// section. Lines before the first heading belong to the first section.
pub fn parse_raw_template_string(content: String, file_name: String) -> (r: Result<
    Template,
    String,
>)
    ensures
        r matches Ok(t) && t@ == spec_parse_template(content@, file_name@),
{
    let chars = chars_of(content.as_str());
    let lines = lines(&chars);
    let ghost ls = lines.deep_view();
    let n = lines.len();
    let mark = vec!['#', '#'];
    let optional = vec!['#', '#', ' ', '?'];
    let plain = vec!['#', '#', ' '];
    let mut blocks: Vec<Block> = Vec::new();
    let mut body: Vec<Vec<char>> = Vec::new();
    let mut section: Vec<char> = Vec::new();
    let mut placeholders: Vec<String> = Vec::new();
    for i in 0..n
        invariant
            n == lines.len(),
            ls == lines.deep_view(),
            ls == spec_lines(content@),
            mark@ == heading_mark(),
            optional@ == optional_heading(),
            plain@ == plain_heading(),
            ({
                let st = spec_parse_lines(ls, i as nat);
                &&& blocks@.map_values(|b: Block| b@) == st.blocks
                &&& body.deep_view() == st.body
                &&& section@ == st.section
                &&& placeholders.deep_view() == st.placeholders
            }),
    {
        let line = &lines[i];
        let ghost st = spec_parse_lines(ls, i as nat);
        let ghost old_blocks = blocks@;
        let ghost old_body = body.deep_view();
        assert(ls[i as int] == line@);
        if starts_with(line, &mark) {
            if section.len() > 0 {
                let b = close_block(&section, &body);
                blocks.push(b);
                body = Vec::new();
                assert(blocks@.map_values(|b: Block| b@) =~= old_blocks.map_values(
                    |b: Block| b@,
                ).push(spec_close_block(st.section, st.body)));
            }
            let ghost mid_body = body.deep_view();
            let shown = replace(line, &optional, &plain);
            proof {
                lemma_chars_deep_view(&shown);
            }
            body.push(shown);
            assert(body.deep_view() =~= mid_body.push(spec_replace(
                line@,
                optional_heading(),
                plain_heading(),
            )));
            section = header_title(line);
        } else if i == n - 1 {
            let copy = line.clone();
            proof {
                lemma_chars_deep_view(&copy);
            }
            body.push(copy);
            assert(body.deep_view() =~= old_body.push(line@));
            let b = close_block(&section, &body);
            blocks.push(b);
            assert(blocks@.map_values(|b: Block| b@) =~= old_blocks.map_values(|b: Block| b@).push(
                spec_close_block(st.section, old_body.push(line@)),
            ));
        } else if is_placeholder_start(line) {
            placeholders = placeholder_list(line);
        } else {
            let copy = line.clone();
            proof {
                lemma_chars_deep_view(&copy);
            }
            body.push(copy);
            assert(body.deep_view() =~= old_body.push(line@));
        }
    }
    Ok(Template { name: file_name, content: blocks, placeholders: placeholders })
}

// ---------------------------------------------------------------------------
// Loading templates
// ---------------------------------------------------------------------------

/// The templates that the embedded files `files` describe, each named by its path.
pub open spec fn spec_embedded_templates(files: Seq<(Seq<char>, Option<Seq<char>>)>) -> Seq<
    TemplateView,
> {
    files.map_values(
        |f: (Seq<char>, Option<Seq<char>>)| spec_parse_template(f.1.unwrap(), f.0),
    )
}

/// The template that the text `content` of the file `file_name` describes.
pub fn parse_template(content: String, file_name: String) -> (t: Template)
    ensures
        t@ == spec_parse_template(content@, file_name@),
{
    match parse_raw_template_string(content, file_name) {
        Ok(t) => t,
        Err(_) => {
            assert(false);
            Template { name: String::new(), content: Vec::new(), placeholders: Vec::new() }
        },
    }
}

/// Parses every embedded file, or gives `None` when one of them is not text.
fn parse_embedded(files: &Vec<(String, Option<String>)>) -> (r: Option<Vec<Template>>)
    ensures
        r is Some <==> all_text(files.deep_view()),
        r matches Some(ts) ==> templates_view(ts@) == spec_embedded_templates(files.deep_view()),
{
    let ghost fv = files.deep_view();
    let mut out: Vec<Template> = Vec::new();
    for i in 0..files.len()
        invariant
            fv == files.deep_view(),
            all_text(fv.take(i as int)),
            templates_view(out@) == spec_embedded_templates(fv.take(i as int)),
    {
        let ghost old_out = out@;
        assert(fv[i as int] == files[i as int].deep_view());
        match &files[i].1 {
            Some(text) => {
                let t = parse_template(text.clone(), files[i].0.clone());
                assert(t@ == spec_parse_template(fv[i as int].1.unwrap(), fv[i as int].0));
                out.push(t);
                assert(out@ == old_out.push(t));
                assert(fv.take(i + 1) =~= fv.take(i as int).push(fv[i as int]));
                assert(templates_view(out@) =~= templates_view(old_out).push(t@));
                assert(spec_embedded_templates(fv.take(i + 1)) =~= spec_embedded_templates(
                    fv.take(i as int),
                ).push(t@));
            },
            None => {
                assert(!all_text(fv)) by {
                    assert(fv[i as int].1 is None);
                }
                return None;
            },
        }
    }
    assert(fv.take(files.len() as int) =~= fv);
    Some(out)
}

/// The templates embedded in `dir`, one for each file directly inside it, in the
/// directory's order, each named by the file's path. Every file must be text.
pub fn load_standard_templates(dir: &Dir<'static>) -> (ts: Vec<Template>)
    requires
        all_text(dir_files(*dir)),
    ensures
        templates_view(ts@) == spec_embedded_templates(dir_files(*dir)),
{
    let files = embedded_files(dir);
    match parse_embedded(&files) {
        Some(ts) => ts,
        None => {
            assert(false);
            Vec::new()
        },
    }
}

/// The templates embedded in `dir` as [`load_standard_templates`] reads them, or `None`
/// when a file of `dir` is not text.
pub fn try_load_standard_templates(dir: &Dir<'static>) -> (r: Option<Vec<Template>>)
    ensures
        r is Some <==> all_text(dir_files(*dir)),
        r matches Some(ts) ==> templates_view(ts@) == spec_embedded_templates(dir_files(*dir)),
{
    let files = embedded_files(dir);
    parse_embedded(&files)
}

/// The message given when a directory holds no template.
pub open spec fn no_templates_message() -> Seq<char> {
    "No templates found in ~/readme-templates"@
}

/// The templates that the markdown files `files` (file name, text) describe.
pub open spec fn spec_custom_templates(files: Seq<(Seq<char>, Seq<char>)>) -> Seq<TemplateView> {
    files.map_values(|f: (Seq<char>, Seq<char>)| spec_parse_template(f.1, f.0))
}

/// The templates of the markdown files `files` (file name and text, in the order the
/// directory was read), or an error when there is none.
pub fn load_custom_templates(files: Vec<(String, String)>) -> (r: Result<Vec<Template>, String>)
    ensures
        match r {
            Ok(ts) => files@.len() > 0 && templates_view(ts@) == spec_custom_templates(
                files.deep_view(),
            ),
            Err(e) => files@.len() == 0 && e@ == no_templates_message(),
        },
{
    let ghost fv = files.deep_view();
    let mut out: Vec<Template> = Vec::new();
    for i in 0..files.len()
        invariant
            fv == files.deep_view(),
            templates_view(out@) == spec_custom_templates(fv.take(i as int)),
    {
        assert(fv[i as int] == files[i as int].deep_view());
        let ghost old_out = out@;
        let t = parse_template(files[i].1.clone(), files[i].0.clone());
        assert(t@ == spec_parse_template(fv[i as int].1, fv[i as int].0));
        out.push(t);
        assert(out@ == old_out.push(t));
        assert(fv.take(i + 1) =~= fv.take(i as int).push(fv[i as int]));
        assert(templates_view(out@) =~= templates_view(old_out).push(t@));
        assert(spec_custom_templates(fv.take(i + 1)) =~= spec_custom_templates(
            fv.take(i as int),
        ).push(t@));
    }
    assert(fv.take(files.len() as int) =~= fv);
    if out.len() == 0 {
        Err("No templates found in ~/readme-templates".to_owned())
    } else {
        Ok(out)
    }
}

// ---------------------------------------------------------------------------
// File names
// ---------------------------------------------------------------------------

/// The characters that a file name may not hold: `< > : \ " / | ? *`.
pub open spec fn is_forbidden_char(c: char) -> bool {
    c == '<' || c == '>' || c == ':' || c == '\\' || c == '"' || c == '/' || c == '|' || c == '?'
        || c == '*'
}

/// The control characters (general category `Cc`).
pub open spec fn spec_is_control(c: char) -> bool {
    (c as u32) <= 0x1f || (0x7f <= (c as u32) && (c as u32) <= 0x9f)
}

/// A file name is valid when it is ASCII and holds neither a forbidden character nor a
/// control character.
pub open spec fn spec_is_valid_filename(name: Seq<char>) -> bool {
    &&& is_ascii_chars(name)
    &&& forall|i: int|
        0 <= i < name.len() ==> !is_forbidden_char(#[trigger] name[i]) && !spec_is_control(name[i])
}

/// Whether `filename` is a valid name for the file to save.
pub fn is_valid_filename(filename: &str) -> (b: bool)
    ensures
        b == spec_is_valid_filename(filename@),
{
    if !filename.is_ascii() {
        return false;
    }
    let chars = chars_of(filename);
    for i in 0..chars.len()
        invariant
            chars@ == filename@,
            forall|j: int|
                0 <= j < i ==> !is_forbidden_char(#[trigger] chars@[j]) && !spec_is_control(
                    chars@[j],
                ),
    {
        let c = chars[i];
        let u = c as u32;
        if c == '<' || c == '>' || c == ':' || c == '\\' || c == '"' || c == '/' || c == '|' || c
            == '?' || c == '*' || u <= 0x1f || (0x7f <= u && u <= 0x9f) {
            assert(!(!is_forbidden_char(chars@[i as int]) && !spec_is_control(chars@[i as int])));
            return false;
        }
    }
    true
}

/// The extension of a file name as `Path::extension` documents it: none when the name has
/// no `.` or its only `.` is its first character, else what follows the last `.`.
pub open spec fn spec_name_extension(name: Seq<char>) -> Option<Seq<char>> {
    let dot = last_dot(name);
    if dot <= 0 {
        None
    } else {
        Some(name.skip(dot + 1))
    }
}

/// The position of the last `.` in `s`, or -1.
pub open spec fn last_dot(s: Seq<char>) -> int {
    last_index_of(s, '.')
}

/// The position of the last `c` in `s`, or -1.
pub open spec fn last_index_of(s: Seq<char>, c: char) -> int
    decreases s.len(),
{
    if s.len() == 0 {
        -1
    } else if s.last() == c {
        s.len() - 1
    } else {
        last_index_of(s.drop_last(), c)
    }
}

/// The part of a path after its last `/`.
pub open spec fn last_component(path: Seq<char>) -> Seq<char> {
    path.skip(last_index_of(path, '/') + 1)
}

/// A path that is a single file name on every platform: not empty, neither `.` nor `..`,
/// and without `/`, `\\` or `:`.
pub open spec fn is_plain_file_name(path: Seq<char>) -> bool {
    &&& path.len() > 0
    &&& path != seq!['.']
    &&& path != seq!['.', '.']
    &&& !path.contains('/')
    &&& !path.contains('\\')
    &&& !path.contains(':')
}

/// A path read the same way on every platform: it holds no `\\` or `:` and does not start
/// with `//`, so `/` alone separates its components and it has no prefix.
pub open spec fn is_portable_path(path: Seq<char>) -> bool {
    &&& !path.contains('\\')
    &&& !path.contains(':')
    &&& !spec_starts_with(path, seq!['/', '/'])
}

/// The path without what `Path::components` normalizes away at its end: trailing `/`s and
/// trailing `.` components that follow a `/`.
pub open spec fn strip_path_tail(path: Seq<char>) -> Seq<char>
    decreases path.len(),
{
    if path.len() > 0 && path.last() == '/' {
        strip_path_tail(path.drop_last())
    } else if path.len() >= 2 && path.last() == '.' && path[path.len() - 2] == '/' {
        strip_path_tail(path.drop_last())
    } else {
        path
    }
}

/// The file name of a portable path, as `Path::file_name` documents it: its last component
/// once trailing `/`s and `.` components are set aside; none when that component is empty
/// (the root or the empty path), `.` (the current directory) or `..`.
pub open spec fn spec_file_name(path: Seq<char>) -> Option<Seq<char>> {
    let name = last_component(strip_path_tail(path));
    if is_plain_file_name(name) {
        Some(name)
    } else {
        None
    }
}

/// The extension of a portable path, as `Path::extension` documents it: the extension of
/// its file name, if it has one.
pub open spec fn spec_path_extension(path: Seq<char>) -> Option<Seq<char>> {
    match spec_file_name(path) {
        Some(name) => spec_name_extension(name),
        None => None,
    }
}

/// `Path::extension` of std, on a path given as text. For a portable path (see
/// [`is_portable_path`]) the result is the extension of the path's file name as the
/// documentation of `Path::components`, `Path::file_name` and `Path::extension` describes
/// it. For paths with `\\`, `:` or a leading `//` the platform's path syntax decides, and
/// nothing is stated.
#[verifier::external_body]
fn extension_of(path: &str) -> (ext: Option<String>)
    ensures
        is_portable_path(path@) ==> ext.deep_view() == spec_path_extension(path@),
{
    let ext = std::path::Path::new(path).extension()?;
    Some(ext.to_str()?.to_string())
}

/// The extension of a markdown file: `md` or `markdown`.
pub open spec fn is_markdown_extension(ext: Option<Seq<char>>) -> bool {
    match ext {
        Some(e) => e == seq!['m', 'd'] || e == seq!['m', 'a', 'r', 'k', 'd', 'o', 'w', 'n'],
        None => false,
    }
}

fn same_chars(a: &Vec<char>, b: &Vec<char>) -> (r: bool)
    ensures
        r == (a@ == b@),
{
    let r = a.len() == b.len() && starts_with(a, b);
    proof {
        if a.len() == b.len() {
            assert(a@.take(b@.len() as int) =~= a@);
        }
    }
    r
}

/// Whether `path` names a markdown file: its extension is `md` or `markdown`.
pub fn is_markdown_file(path: &str) -> (b: bool)
    ensures
        is_portable_path(path@) ==> b == is_markdown_extension(spec_path_extension(path@)),
{
    let ext = extension_of(path);
    match ext {
        Some(ext) => {
            let e = chars_of(ext.as_str());
            let md = vec!['m', 'd'];
            let markdown = vec!['m', 'a', 'r', 'k', 'd', 'o', 'w', 'n'];
            assert(md@ =~= seq!['m', 'd']);
            assert(markdown@ =~= seq!['m', 'a', 'r', 'k', 'd', 'o', 'w', 'n']);
            same_chars(&e, &md) || same_chars(&e, &markdown)
        },
        None => false,
    }
}

// ---------------------------------------------------------------------------
// Placeholders
// ---------------------------------------------------------------------------

/// How a placeholder is shown to the user: without `[` and `]`, with `_` as a space.
pub open spec fn spec_placeholder_label(p: Seq<char>) -> Seq<char> {
    spec_replace(
        spec_replace(spec_replace(p, seq!['['], Seq::empty()), seq![']'], Seq::empty()),
        seq!['_'],
        seq![' '],
    )
}

/// The words before a placeholder's label in the question asked for it.
pub open spec fn prompt_lead() -> Seq<char> {
    "Enter a "@
}

/// How a placeholder is shown to the user, which is also the answer offered by default.
pub fn placeholder_label(placeholder: &str) -> (out: String)
    ensures
        out@ == spec_placeholder_label(placeholder@),
{
    let p = chars_of(placeholder);
    let open = vec!['['];
    let close = vec![']'];
    let underscore = vec!['_'];
    let space = vec![' '];
    let none: Vec<char> = Vec::new();
    assert(open@ =~= seq!['[']);
    assert(close@ =~= seq![']']);
    assert(underscore@ =~= seq!['_']);
    assert(space@ =~= seq![' ']);
    let a = replace(&p, &open, &none);
    let b = replace(&a, &close, &none);
    string_of(&replace(&b, &underscore, &space))
}

/// The question asked for a placeholder.
pub fn placeholder_prompt(placeholder: &str) -> (out: String)
    ensures
        out@ == prompt_lead() + spec_placeholder_label(placeholder@),
{
    let mut out = chars_of("Enter a ");
    let label = chars_of(placeholder_label(placeholder).as_str());
    push_all(&mut out, &label);
    string_of(&out)
}

/// The words before a placeholder's label in the question the root reader's dialogue asks.
pub open spec fn value_prompt_lead() -> Seq<char> {
    "Enter a value for "@
}

/// The question asked for a placeholder by the dialogue built on the root reader.
pub fn placeholder_value_prompt(placeholder: &str) -> (out: String)
    ensures
        out@ == value_prompt_lead() + spec_placeholder_label(placeholder@),
{
    let mut out = chars_of("Enter a value for ");
    let label = chars_of(placeholder_label(placeholder).as_str());
    push_all(&mut out, &label);
    string_of(&out)
}

/// `content` with each placeholder of `placeholders`, in order, replaced everywhere by the
/// answer given for it.
pub open spec fn spec_fill(content: Seq<char>, placeholders: Seq<Seq<char>>, answers: Seq<Seq<char>>) -> Seq<char>
    decreases placeholders.len(),
{
    if placeholders.len() == 0 {
        content
    } else {
        spec_replace(
            spec_fill(content, placeholders.drop_last(), answers.drop_last()),
            placeholders.last(),
            answers.last(),
        )
    }
}

/// Replaces, in order, every occurrence of each placeholder by the user's answer for it
/// (`answers[i]` answers `placeholders[i]`).
pub fn fill_placeholders(content: String, placeholders: Vec<String>, answers: Vec<String>) -> (out: String)
    requires
        answers.len() == placeholders.len(),
    ensures
        out@ == spec_fill(content@, placeholders.deep_view(), answers.deep_view()),
{
    let ghost pv = placeholders.deep_view();
    let ghost av = answers.deep_view();
    let mut replaced = chars_of(content.as_str());
    for i in 0..placeholders.len()
        invariant
            answers.len() == placeholders.len(),
            pv == placeholders.deep_view(),
            av == answers.deep_view(),
            replaced@ == spec_fill(content@, pv.take(i as int), av.take(i as int)),
    {
        let p = chars_of(placeholders[i].as_str());
        let a = chars_of(answers[i].as_str());
        assert(pv.take(i + 1).drop_last() =~= pv.take(i as int));
        assert(av.take(i + 1).drop_last() =~= av.take(i as int));
        replaced = replace(&replaced, &p, &a);
    }
    assert(pv.take(placeholders.len() as int) =~= pv);
    assert(av.take(placeholders.len() as int) =~= av);
    string_of(&replaced)
}

// ---------------------------------------------------------------------------
// Choosing a template and its sections
// ---------------------------------------------------------------------------

/// `.md`, cut from the end of template names when they are listed.
pub open spec fn md_suffix() -> Seq<char> {
    seq!['.', 'm', 'd']
}

/// The names under which the templates are offered: without their `.md` ending.
pub fn template_names(templates: &Vec<Template>) -> (names: Vec<String>)
    ensures
        names@.len() == templates@.len(),
        forall|i: int|
            0 <= i < names@.len() ==> (#[trigger] names@[i])@ == spec_trim_end_matches(
                templates@[i].name@,
                md_suffix(),
            ),
{
    let md = vec!['.', 'm', 'd'];
    assert(md@ =~= md_suffix());
    let mut names: Vec<String> = Vec::new();
    for i in 0..templates.len()
        invariant
            md@ == md_suffix(),
            names@.len() == i,
            forall|j: int|
                0 <= j < i ==> (#[trigger] names@[j])@ == spec_trim_end_matches(
                    templates@[j].name@,
                    md_suffix(),
                ),
    {
        let name = chars_of(templates[i].name.as_str());
        names.push(string_of(&trim_end_matches(&name, &md)));
    }
    names
}

/// The position of the first template whose name starts with `selection`.
pub fn find_template(templates: &Vec<Template>, selection: &str) -> (r: Option<usize>)
    ensures
        match r {
            Some(i) => i < templates@.len() && spec_starts_with(templates@[i as int].name@, selection@)
                && forall|j: int|
                0 <= j < i ==> !spec_starts_with(#[trigger] templates@[j].name@, selection@),
            None => forall|j: int|
                0 <= j < templates@.len() ==> !spec_starts_with(
                    #[trigger] templates@[j].name@,
                    selection@,
                ),
        },
{
    let sel = chars_of(selection);
    for i in 0..templates.len()
        invariant
            sel@ == selection@,
            forall|j: int|
                0 <= j < i ==> !spec_starts_with(#[trigger] templates@[j].name@, selection@),
    {
        let name = chars_of(templates[i].name.as_str());
        if starts_with(&name, &sel) {
            return Some(i);
        }
    }
    None
}

/// The names of the sections, offered for choosing.
pub fn section_names(blocks: &Vec<Block>) -> (names: Vec<String>)
    ensures
        names@.len() == blocks@.len(),
        forall|i: int| 0 <= i < names@.len() ==> (#[trigger] names@[i])@ == blocks@[i].name@,
{
    let mut names: Vec<String> = Vec::new();
    for i in 0..blocks.len()
        invariant
            names@.len() == i,
            forall|j: int| 0 <= j < i ==> (#[trigger] names@[j])@ == blocks@[j].name@,
    {
        names.push(blocks[i].name.clone());
    }
    names
}

/// Which sections are chosen before the user changes anything: the required ones.
pub fn section_defaults(blocks: &Vec<Block>) -> (defaults: Vec<bool>)
    ensures
        defaults@.len() == blocks@.len(),
        forall|i: int| 0 <= i < defaults@.len() ==> defaults@[i] == blocks@[i].required,
{
    let mut defaults: Vec<bool> = Vec::new();
    for i in 0..blocks.len()
        invariant
            defaults@.len() == i,
            forall|j: int| 0 <= j < i ==> defaults@[j] == blocks@[j].required,
    {
        defaults.push(blocks[i].required);
    }
    defaults
}

/// The contents of the chosen sections.
pub open spec fn chosen_contents(blocks: Seq<Block>, chosen: Seq<usize>) -> Seq<Seq<char>> {
    chosen.map_values(|k: usize| blocks[k as int].content@)
}

/// The contents of the chosen sections (`chosen` holds their positions), in the order
/// chosen, one after another on separate lines.
pub fn join_sections(blocks: &Vec<Block>, chosen: &Vec<usize>) -> (out: String)
    requires
        forall|k: int| 0 <= k < chosen@.len() ==> #[trigger] chosen@[k] < blocks@.len(),
    ensures
        out@ == spec_join(chosen_contents(blocks@, chosen@), newline()),
{
    let mut parts: Vec<Vec<char>> = Vec::new();
    for k in 0..chosen.len()
        invariant
            forall|k: int| 0 <= k < chosen@.len() ==> #[trigger] chosen@[k] < blocks@.len(),
            parts.deep_view() == chosen_contents(blocks@, chosen@.take(k as int)),
    {
        let ghost old_parts = parts.deep_view();
        let part = chars_of(blocks[chosen[k]].content.as_str());
        proof {
            lemma_chars_deep_view(&part);
        }
        parts.push(part);
        assert(parts.deep_view() =~= old_parts.push(blocks@[chosen@[k as int] as int].content@));
        assert(chosen@.take(k + 1) =~= chosen@.take(k as int).push(chosen@[k as int]));
        assert(chosen_contents(blocks@, chosen@.take(k + 1)) =~= chosen_contents(
            blocks@,
            chosen@.take(k as int),
        ).push(blocks@[chosen@[k as int] as int].content@));
    }
    assert(chosen@.take(chosen@.len() as int) =~= chosen@);
    let sep = vec!['\n'];
    assert(sep@ =~= newline());
    string_of(&join(&parts, &sep))
}

} // verus!
