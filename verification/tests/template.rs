use include_dir::{Dir, DirEntry, File};
use readme_generator::template::{
    find_template, is_markdown_file, is_valid_filename, join_sections, load_custom_templates,
    load_standard_templates, parse_raw_template_string, placeholder_label, placeholder_prompt,
    placeholder_value_prompt,
    fill_placeholders, section_defaults, section_names, template_names, trim_header_prefix,
    try_load_standard_templates,
};

const ENTRIES: &[DirEntry<'static>] = &[
    DirEntry::File(File::new(
        "basic.md",
        b"Placeholders: [project_name],[author_name]\n## [project_name]\nBy [author_name]\n## ?Contributing\nFork it",
    )),
    DirEntry::Dir(Dir::new("nested", &[])),
    DirEntry::File(File::new("second.md", b"## Only\nline")),
];
const DIR: Dir<'static> = Dir::new("", ENTRIES);

const BAD_ENTRIES: &[DirEntry<'static>] = &[DirEntry::File(File::new("bad.md", &[0xff, 0xfe]))];
const BAD_DIR: Dir<'static> = Dir::new("", BAD_ENTRIES);

#[test]
fn test_load_standard_templates() {
    let templates = load_standard_templates(&DIR);
    assert!(!templates.is_empty());
}

#[test]
fn test_parse_raw_template_string() {
    let content = String::from("## ?Section 1\nContent 1\n## Section 2\nContent 2");
    let file_name = String::from("test.md");

    let template = parse_raw_template_string(content, file_name).unwrap();
    println!("{:?}", template.content[1].content);
    assert_eq!(template.name, "test.md");
    assert_eq!(template.placeholders, Vec::<String>::new());
    assert_eq!(template.content.len(), 2);
    assert_eq!(template.content[0].name, "Section 1");
    assert_eq!(template.content[0].content, "## Section 1\nContent 1");
    assert_eq!(template.content[0].required, false);
    assert_eq!(template.content[1].name, "Section 2");
    assert_eq!(template.content[1].content, "## Section 2\nContent 2");
    assert_eq!(template.content[1].required, true);
}

#[test]
fn test_is_markdown_file() {
    assert!(is_markdown_file("test.md"));
    assert!(is_markdown_file("test.markdown"));
    assert!(!is_markdown_file("test.txt"));
}

#[test]
fn test_trim_header_prefix() {
    let line = "## ?Section 1";
    assert_eq!(trim_header_prefix(line), "?Section 1");
    let line = "### Section 2";
    assert_eq!(trim_header_prefix(line), "Section 2");
}

#[test]
fn embedded_templates_are_read_in_order_with_their_paths() {
    let templates = load_standard_templates(&DIR);
    assert_eq!(templates.len(), 2);
    assert_eq!(templates[0].name, "basic.md");
    assert_eq!(templates[1].name, "second.md");
    assert_eq!(templates[0].placeholders, vec!["[project_name]", "[author_name]"]);
    assert_eq!(templates[0].content.len(), 2);
    assert_eq!(templates[0].content[0].name, "[project_name]");
    assert_eq!(templates[0].content[0].content, "## [project_name]\nBy [author_name]");
    assert!(templates[0].content[0].required);
    assert_eq!(templates[0].content[1].name, "Contributing");
    assert_eq!(templates[0].content[1].content, "## Contributing\nFork it");
    assert!(!templates[0].content[1].required);
    assert_eq!(templates[1].content.len(), 1);
    assert_eq!(templates[1].content[0].content, "## Only\nline");
}

#[test]
fn embedded_file_that_is_not_text_is_refused() {
    assert!(try_load_standard_templates(&BAD_DIR).is_none());
    assert_eq!(try_load_standard_templates(&DIR).map(|t| t.len()), Some(2));
}

#[test]
fn markdown_extension_cases() {
    assert!(is_markdown_file("dir/notes.md"));
    assert!(!is_markdown_file(".md"));
    assert!(!is_markdown_file("md"));
    assert!(is_markdown_file("..md"));
    assert!(!is_markdown_file("test.MD"));
    assert!(!is_markdown_file("test.md.txt"));
}

#[test]
fn text_before_first_heading_joins_the_first_section() {
    let t = parse_raw_template_string("intro\n## A\nx\n## B\ny".to_string(), "f".to_string()).unwrap();
    assert_eq!(t.content.len(), 2);
    assert_eq!(t.content[0].name, "A");
    assert_eq!(t.content[0].content, "intro\n## A\nx");
    assert_eq!(t.content[1].content, "## B\ny");
}

#[test]
fn last_line_heading_is_not_a_section() {
    let t = parse_raw_template_string("## A\nx\n## B".to_string(), "f".to_string()).unwrap();
    assert_eq!(t.content.len(), 1);
    assert_eq!(t.content[0].name, "A");
    assert_eq!(t.content[0].content, "## A\nx");
}

#[test]
fn placeholders_line_and_crlf() {
    let t = parse_raw_template_string(
        "Placeholders: [a],[b_c]\r\n## ??Opt\r\nbody [a]\r\nend\r\n".to_string(),
        "f.md".to_string(),
    )
    .unwrap();
    assert_eq!(t.placeholders, vec!["[a]", "[b_c]"]);
    assert_eq!(t.content.len(), 1);
    assert_eq!(t.content[0].name, "Opt");
    assert!(!t.content[0].required);
    assert_eq!(t.content[0].content, "## ?Opt\nbody [a]\nend");
}

#[test]
fn singular_placeholder_line() {
    let t = parse_raw_template_string("Placeholder: [x],[y]\n## S\nz".to_string(), "f".to_string()).unwrap();
    assert_eq!(t.placeholders, vec!["[x]", "[y]"]);
}

#[test]
fn empty_template_has_no_sections() {
    let t = parse_raw_template_string(String::new(), "e.md".to_string()).unwrap();
    assert_eq!(t.name, "e.md");
    assert!(t.content.is_empty());
    assert!(t.placeholders.is_empty());
}

#[test]
fn untitled_heading_keeps_the_section_open() {
    let t = parse_raw_template_string("## \nx\n## T\ny".to_string(), "f".to_string()).unwrap();
    assert_eq!(t.content.len(), 1);
    assert_eq!(t.content[0].name, "T");
    assert_eq!(t.content[0].content, "## \nx\n## T\ny");
}

#[test]
fn trim_header_prefix_strips_unicode_space() {
    assert_eq!(trim_header_prefix("#\u{3000}\tTitle "), "Title ");
    assert_eq!(trim_header_prefix("# # x"), "# x");
    assert_eq!(trim_header_prefix("plain"), "plain");
}

#[test]
fn valid_filenames() {
    assert!(is_valid_filename("README2.md"));
    assert!(!is_valid_filename("a/b.md"));
    assert!(!is_valid_filename("a\\b.md"));
    assert!(!is_valid_filename("what?.md"));
    assert!(!is_valid_filename("tab\there.md"));
    assert!(!is_valid_filename("caf\u{e9}.md"));
    assert!(!is_valid_filename("del\u{7f}.md"));
    assert!(is_valid_filename(""));
}

#[test]
fn placeholder_labels_and_prompts() {
    assert_eq!(placeholder_label("[project_name]"), "project name");
    assert_eq!(placeholder_prompt("[author_name]"), "Enter a author name");
}

#[test]
fn fill_replaces_each_placeholder_in_order() {
    let out = fill_placeholders(
        "# [name]\nby [author] for [name]".to_string(),
        vec!["[name]".to_string(), "[author]".to_string()],
        vec!["Tool".to_string(), "Ann".to_string()],
    );
    assert_eq!(out, "# Tool\nby Ann for Tool");
    let chained = fill_placeholders(
        "[a]".to_string(),
        vec!["[a]".to_string(), "[b]".to_string()],
        vec!["[b]".to_string(), "done".to_string()],
    );
    assert_eq!(chained, "done");
    assert_eq!(fill_placeholders("same".to_string(), vec![], vec![]), "same");
    assert_eq!(
        fill_placeholders("ab".to_string(), vec![String::new()], vec!["-".to_string()]),
        "-a-b-"
    );
}

#[test]
fn custom_templates_from_files() {
    let r = load_custom_templates(vec![
        ("one.md".to_string(), "## A\nx".to_string()),
        ("two.markdown".to_string(), "## B\ny".to_string()),
    ])
    .unwrap();
    assert_eq!(r.len(), 2);
    assert_eq!(r[1].name, "two.markdown");
    assert_eq!(r[1].content[0].content, "## B\ny");
    let e = load_custom_templates(vec![]).err().unwrap();
    assert_eq!(e, "No templates found in ~/readme-templates");
}

#[test]
fn choosing_a_template_and_sections() {
    let ts = load_custom_templates(vec![
        ("basic.md".to_string(), "## A\nx\n## ?B\ny\n## C\nz".to_string()),
        ("basic-extended.md".to_string(), "## D\nw".to_string()),
    ])
    .unwrap();
    let names = template_names(&ts);
    assert_eq!(names, vec!["basic", "basic-extended"]);
    assert_eq!(find_template(&ts, "basic-extended"), Some(1));
    assert_eq!(find_template(&ts, "basic"), Some(0));
    assert_eq!(find_template(&ts, "other"), None);
    let blocks = &ts[0].content;
    assert_eq!(section_names(blocks), vec!["A", "B", "C"]);
    assert_eq!(section_defaults(blocks), vec![true, false, true]);
    assert_eq!(join_sections(blocks, &vec![2, 0]), "## C\nz\n## A\nx");
    assert_eq!(join_sections(blocks, &vec![]), "");
}

#[test]
fn filling_absent_placeholders_changes_nothing() {
    assert_eq!(
        fill_placeholders("abc".to_string(), vec!["[x]".to_string()], vec!["y".to_string()]),
        "abc"
    );
}

#[test]
fn listed_names_find_their_template() {
    let ts = load_custom_templates(vec![
        ("a.md.md".to_string(), "## A\nx".to_string()),
        ("b.markdown".to_string(), "## B\ny".to_string()),
        ("a.md".to_string(), "## C\nz".to_string()),
    ])
    .unwrap();
    let names = template_names(&ts);
    assert_eq!(names, vec!["a", "b.markdown", "a"]);
    for (i, name) in names.iter().enumerate() {
        let j = find_template(&ts, name).unwrap();
        assert!(j <= i);
    }
}

#[test]
fn markdown_paths_with_directories() {
    assert!(is_markdown_file("/x/notes.md"));
    assert!(is_markdown_file("./a//b/README.markdown"));
    assert!(!is_markdown_file("/x.md/notes"));
    assert!(!is_markdown_file("docs/.md"));
}

#[test]
fn last_placeholders_line_wins() {
    let t = parse_raw_template_string(
        "Placeholders: [a]\n## S\nPlaceholders: [b],[c]\nbody".to_string(),
        "f".to_string(),
    )
    .unwrap();
    assert_eq!(t.placeholders, vec!["[b]", "[c]"]);
    let root = readme_generator::parse_raw_template_string(
        "Placeholders: [a]\n## S\nPlaceholders: [b]".to_string(),
        "f".to_string(),
    )
    .unwrap();
    assert_eq!(root.placeholders, vec!["[b]"]);
}

#[test]
fn value_prompt() {
    assert_eq!(placeholder_value_prompt("[user_name]"), "Enter a value for user name");
}

#[test]
fn markdown_paths_with_trailing_parts() {
    assert!(is_markdown_file("notes.md/"));
    assert!(is_markdown_file("a/notes.md/."));
    assert!(is_markdown_file("a/notes.md//./"));
    assert!(!is_markdown_file("a/notes.md/.."));
    assert!(!is_markdown_file("/"));
    assert!(!is_markdown_file("./"));
    assert!(!is_markdown_file(""));
    assert!(is_markdown_file("a/../b.md"));
}
