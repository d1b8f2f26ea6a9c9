use pfauterminal::native_menu::{
    about_dialog_text, about_panel_options, app_version, menu_bar, NativeMenuEntry,
};

fn titles(entries: &[NativeMenuEntry]) -> Vec<String> {
    entries
        .iter()
        .map(|e| match e {
            NativeMenuEntry::Item(it) => format!("{}|{}|{}|{}", it.title, it.action, it.key, it.command_option),
            NativeMenuEntry::Separator => "---".to_string(),
        })
        .collect()
}

#[test]
fn menu_bar_layout() {
    let bar = menu_bar();
    assert_eq!(bar.len(), 3);
    assert_eq!(bar[0].title, "");
    assert_eq!(
        titles(&bar[0].entries),
        vec![
            "About pfauterminal|showAbout:||false",
            "---",
            "Hide pfauterminal|hide:|h|false",
            "Hide Others|hideOtherApplications:|h|true",
            "Show All|unhideAllApplications:||false",
            "---",
            "Quit pfauterminal|terminate:|q|false",
        ]
    );
    assert_eq!(bar[1].title, "Edit");
    assert_eq!(
        titles(&bar[1].entries),
        vec!["Copy|copy:|c|false", "Paste|paste:|v|false", "Select All|selectAll:|a|false"]
    );
    assert_eq!(bar[2].title, "Window");
    assert_eq!(
        titles(&bar[2].entries),
        vec!["Minimize|performMiniaturize:|m|false", "Zoom|performZoom:||false"]
    );
}

#[test]
fn about_texts() {
    assert_eq!(app_version("0.2.0", "abc1234"), "0.2.0 (abc1234)");
    let opts = about_panel_options("0.2.0 (abc1234)", "2026");
    assert_eq!(
        opts,
        vec![
            ("ApplicationName".to_string(), "pfauterminal".to_string()),
            ("Version".to_string(), "0.2.0 (abc1234)".to_string()),
            ("Copyright".to_string(), "Copyright © 2026 Andrey Pfau".to_string()),
        ]
    );
    let (title, message) = about_dialog_text("1.0");
    assert_eq!(title, "About pfauterminal");
    assert_eq!(message, "pfauterminal\nVersion 1.0\n\nCopyright © 2025 Andrey Pfau");
}
