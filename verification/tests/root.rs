use include_dir::{Dir, DirEntry, File};
use readme_generator::output::{
    output_choice, output_options, output_prompt, write_file_step, OutputChoice, WriteAction,
    WriteEvent, WriteState,
};
use readme_generator::ui::message_text;
use readme_generator::{
    is_custom_category, is_standard_mode,
    get_template_selection, load_custom_templates, load_standard_templates,
    parse_raw_template_string, template_categories, try_load_standard_templates,
};

const ENTRIES: &[DirEntry<'static>] = &[DirEntry::File(File::new("a.md", b"## A\nx\n## B\ny\n## C\nz"))];
const DIR: Dir<'static> = Dir::new("", ENTRIES);

#[test]
fn root_reader_closes_a_section_at_every_second_heading() {
    let t = parse_raw_template_string("## A\nx\n## B\ny\n## C\nz".to_string(), "a.md".to_string()).unwrap();
    assert_eq!(t.content.len(), 1);
    assert_eq!(t.content[0].name, "A");
    assert_eq!(t.content[0].content, "## A\nx");
    assert!(t.content[0].required);
}

#[test]
fn root_loaders() {
    let ts = load_standard_templates(&DIR);
    assert_eq!(ts.len(), 1);
    assert_eq!(ts[0].name, "a.md");
    assert_eq!(ts[0].content.len(), 1);
    assert!(try_load_standard_templates(&DIR).is_some());
    let custom = load_custom_templates(vec![("c.md".to_string(), "## ?Opt\nq\n## Next\nr".to_string())]);
    assert_eq!(custom.len(), 1);
    assert_eq!(custom[0].content[0].name, "Opt");
    assert!(!custom[0].content[0].required);
    assert_eq!(custom[0].content[0].content, "## Opt\nq");
    assert!(load_custom_templates(vec![]).is_empty());
}

#[test]
fn template_categories_and_selection() {
    assert_eq!(template_categories(), vec!["Standard", "Custom"]);
    assert_eq!(get_template_selection(0), "Standard");
    assert_eq!(get_template_selection(1), "Custom");
}

#[test]
fn message_texts() {
    assert_eq!(message_text(&Ok("done".to_string())), "✔ done");
    assert_eq!(message_text(&Err("bad".to_string())), "✘ bad");
}

#[test]
fn output_menu() {
    assert_eq!(
        output_options(),
        vec!["Save to current directory", "Copy to clipboard", "Output to console"]
    );
    assert_eq!(output_prompt(), "What would you like to do with the generated README?");
    assert!(matches!(output_choice("Save to current directory"), OutputChoice::Save));
    assert!(matches!(output_choice("Copy to clipboard"), OutputChoice::Copy));
    assert!(matches!(output_choice("Output to console"), OutputChoice::Console));
    assert!(matches!(output_choice("Save"), OutputChoice::Unmatched));
}

#[test]
fn saving_over_an_existing_readme_needs_consent() {
    let (s, a) = write_file_step(WriteState::Start, WriteEvent::Begin);
    assert!(matches!(a, WriteAction::AskOutput));
    let (s, a) = write_file_step(s, WriteEvent::Chosen("Save to current directory".to_string()));
    assert!(matches!(&a, WriteAction::CheckExists(p) if p == "README.md"));
    let (s, a) = write_file_step(s, WriteEvent::Exists(true));
    assert!(matches!(&a, WriteAction::Confirm(q) if q == "README.md already exists. Overwrite?"));
    let (s, a) = write_file_step(s, WriteEvent::Answered(false));
    assert!(matches!(&a, WriteAction::Confirm(q) if q == "Would you like to save to a different file name?"));
    let (s, a) = write_file_step(s, WriteEvent::Answered(true));
    assert!(matches!(&a, WriteAction::AskName(q, d) if q == "Enter a new file name" && d == "README"));
    let (s, a) = write_file_step(s, WriteEvent::Entered("bad/name".to_string()));
    assert!(matches!(&a, WriteAction::CheckExists(p) if p == "bad/name.md"));
    let (s, a) = write_file_step(s, WriteEvent::Exists(false));
    assert!(matches!(&a, WriteAction::Show(Err(m)) if m == "Invalid name or file already exists"));
    let (s, a) = write_file_step(s, WriteEvent::Done);
    assert!(matches!(a, WriteAction::AskOutput));
    let (s, _) = write_file_step(s, WriteEvent::Chosen("Save to current directory".to_string()));
    let (s, _) = write_file_step(s, WriteEvent::Exists(true));
    let (s, _) = write_file_step(s, WriteEvent::Answered(false));
    let (s, _) = write_file_step(s, WriteEvent::Answered(true));
    let (s, _) = write_file_step(s, WriteEvent::Entered("OTHER".to_string()));
    let (s, a) = write_file_step(s, WriteEvent::Exists(false));
    assert!(matches!(&a, WriteAction::Write(p) if p == "OTHER.md"));
    let (s, a) = write_file_step(s, WriteEvent::Written(Ok(())));
    assert!(matches!(&a, WriteAction::Show(Ok(m)) if m == "README generated successfully"));
    let (_, a) = write_file_step(s, WriteEvent::Done);
    assert!(matches!(a, WriteAction::Stop));
}

#[test]
fn other_destinations() {
    let (s, a) = write_file_step(WriteState::ChooseOutput, WriteEvent::Chosen("Copy to clipboard".to_string()));
    assert!(matches!(a, WriteAction::CopyToClipboard));
    let (_, a) = write_file_step(s, WriteEvent::Done);
    assert!(matches!(&a, WriteAction::Show(Ok(m)) if m == "README copied to clipboard successfully"));
    let (_, a) = write_file_step(WriteState::ChooseOutput, WriteEvent::Chosen("Output to console".to_string()));
    assert!(matches!(a, WriteAction::Print));
    let (_, a) = write_file_step(WriteState::CheckReadme, WriteEvent::Exists(false));
    assert!(matches!(&a, WriteAction::Write(p) if p == "README.md"));
    let (_, a) = write_file_step(WriteState::ConfirmOtherName, WriteEvent::Answered(false));
    assert!(matches!(a, WriteAction::AskOutput));
    let (_, a) = write_file_step(WriteState::Writing, WriteEvent::Written(Err("denied".to_string())));
    assert!(matches!(&a, WriteAction::Show(Err(m)) if m == "denied"));
    let (_, a) = write_file_step(WriteState::CheckName("taken.md".to_string()), WriteEvent::Exists(true));
    assert!(matches!(a, WriteAction::Show(Err(_))));
}

#[test]
fn template_kind_choices() {
    assert!(is_custom_category("Custom"));
    assert!(!is_custom_category("custom"));
    assert!(!is_custom_category("Standard"));
    assert!(is_standard_mode("standard"));
    assert!(!is_standard_mode("Standard"));
    assert!(!is_standard_mode("custom"));
}
