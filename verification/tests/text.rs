use apollo::keyed::KeyedTable;
use apollo::state::{
    cycle_level, cycle_priority, select_down, select_up, AuthenticatedMode, CommandFormFocus,
    DictionaryColumn, DictionaryEditorMode, DirectiveFormStep, DirectiveMode, LoginFocus,
    PluginMgmtMode, WipDirective,
};
use apollo::text::{
    add_text, chars_of, drop_text, find_chars, has_prefix, has_suffix, holds_text, is_space,
    same_text, split_id, split_once_text, split_text, strip_char, trim_text, ID_SEPARATOR,
};

fn s(text: &str) -> String {
    text.to_string()
}

fn list(text: &[&str]) -> Vec<String> {
    text.iter().map(|l| s(l)).collect()
}

#[test]
fn identifiers_split_at_underscores() {
    assert_eq!(ID_SEPARATOR, '_');
    assert_eq!(split_id("ARC"), list(&["ARC"]));
    assert_eq!(split_id("ARC_MED"), list(&["ARC", "MED"]));
    assert_eq!(split_id("ARC_MED_DOOR01"), list(&["ARC", "MED", "DOOR01"]));
    assert_eq!(split_id(""), list(&[""]));
    assert_eq!(split_id("_"), list(&["", ""]));
    assert_eq!(split_id("a__b_"), list(&["a", "", "b", ""]));
    assert_eq!(split_id("é_ü"), list(&["é", "ü"]));
}

#[test]
fn split_agrees_with_the_standard_library() {
    for text in ["", "a", "_a", "a_", "a_b_c", "___", "x-y_z", "日本_語"] {
        let expected: Vec<String> = text.split('_').map(|p| p.to_string()).collect();
        assert_eq!(split_text(text, '_'), expected);
        assert_eq!(split_text(text, '_').join("_"), text);
        assert_eq!(split_text(text, '_').len(), text.matches('_').count() + 1);
    }
    assert_eq!(split_text("a,b", ','), list(&["a", "b"]));
}

#[test]
fn trim_agrees_with_the_standard_library() {
    for text in [
        "",
        " ",
        "a",
        "  a b  ",
        "\t\n a \r\n",
        "\u{a0}x\u{3000}",
        "\u{2003}\u{2028}y z\u{85}",
        "\u{200b}x",
        "x\u{feff}",
        "\u{1680}\u{205f}\u{202f}",
    ] {
        assert_eq!(trim_text(text), text.trim());
    }
    for code in 0..0x3100u32 {
        if let Some(c) = char::from_u32(code) {
            assert_eq!(is_space(c), c.is_whitespace());
        }
    }
}

#[test]
fn strip_takes_every_occurrence_out() {
    assert_eq!(strip_char("a b  c", ' '), "abc");
    assert_eq!(strip_char("   ", ' '), "");
    assert_eq!(strip_char("", ' '), "");
    assert_eq!(strip_char("a\tb", ' '), "a\tb");
    assert_eq!(strip_char("a b", ' '), "a b".replace(' ', ""));
}

#[test]
fn prefixes_and_suffixes() {
    assert!(has_prefix("APOLLO-x", "APOLLO-"));
    assert!(has_prefix("APOLLO-", "APOLLO-"));
    assert!(!has_prefix("APOLLO", "APOLLO-"));
    assert!(!has_prefix("xAPOLLO-", "APOLLO-"));
    assert!(has_prefix("abc", ""));
    assert!(has_prefix("", ""));
    assert!(has_suffix("a.log", ".log"));
    assert!(has_suffix(".log", ".log"));
    assert!(!has_suffix("log", ".log"));
    assert!(!has_suffix("a.logs", ".log"));
    assert!(has_suffix("abc", ""));
    assert!(same_text("é", "é"));
    assert!(!same_text("a", "b"));
    assert_eq!(chars_of("aé"), vec!['a', 'é']);
}

#[test]
fn text_lists_hold_each_text_once() {
    let mut names: Vec<String> = Vec::new();
    assert!(add_text(&mut names, s("a")));
    assert!(add_text(&mut names, s("b")));
    assert!(!add_text(&mut names, s("a")));
    assert_eq!(names, list(&["a", "b"]));
    assert!(holds_text(&names, "b"));
    assert!(!holds_text(&names, "c"));
    assert!(!drop_text(&mut names, "c"));
    assert!(drop_text(&mut names, "a"));
    assert_eq!(names, list(&["b"]));
}

#[test]
fn table_keeps_insertion_order_and_distinct_keys() {
    let mut t: KeyedTable<String> = KeyedTable::new();
    assert!(t.is_empty());
    assert_eq!(t.insert(s("b"), s("1")), None);
    assert_eq!(t.insert(s("a"), s("2")), None);
    assert_eq!(t.insert(s("b"), s("3")), Some(s("1")));
    assert_eq!(t.len(), 2);
    assert_eq!(t.key_at(0), "b");
    assert_eq!(t.value_at(0), "3");
    assert_eq!(t.key_at(1), "a");
    assert_eq!(t.position("a"), Some(1));
    assert_eq!(t.position("c"), None);
    assert!(t.contains_key("a"));
    assert_eq!(t.get("a"), Some(&s("2")));
    assert_eq!(t.get("c"), None);
    *t.value_at_mut(1) = s("4");
    assert_eq!(t.get("a"), Some(&s("4")));
    assert_eq!(t.slot_or_insert("c", s("5")), 2);
    assert_eq!(t.slot_or_insert("b", s("6")), 0);
    assert_eq!(t.get("b"), Some(&s("3")));
    assert_eq!(t.remove("b"), Some(s("3")));
    assert_eq!(t.remove("b"), None);
    assert_eq!(t.key_at(0), "a");
    assert_eq!(t.remove_at(1), s("5"));
    assert_eq!(t.len(), 1);
    t.push(s("z"), s("9"));
    assert_eq!(t.key_at(1), "z");
}

#[test]
fn focus_and_modes_go_round() {
    let all = [
        CommandFormFocus::Name,
        CommandFormFocus::Key,
        CommandFormFocus::Priority,
        CommandFormFocus::HasLevel,
        CommandFormFocus::Level,
    ];
    for (i, f) in all.iter().enumerate() {
        assert_eq!(f.next(), all[(i + 1) % 5]);
        assert_eq!(f.prev(), all[(i + 4) % 5]);
        assert_eq!(f.next().prev(), *f);
        assert_eq!(f.prev().next(), *f);
    }
    assert_eq!(DirectiveMode::View.next(), DirectiveMode::Add);
    assert_eq!(DirectiveMode::Add.next(), DirectiveMode::Remove);
    assert_eq!(DirectiveMode::Remove.next(), DirectiveMode::View);
    assert_eq!(DirectiveMode::View.prev(), DirectiveMode::Remove);
    assert_eq!(DirectiveMode::Add.prev(), DirectiveMode::View);
    assert_eq!(PluginMgmtMode::View.next(), PluginMgmtMode::AddPlugin);
    assert_eq!(PluginMgmtMode::AddEntity.next(), PluginMgmtMode::Remove);
    assert_eq!(PluginMgmtMode::Remove.next(), PluginMgmtMode::View);
    assert_eq!(PluginMgmtMode::View.prev(), PluginMgmtMode::Remove);
    assert_eq!(PluginMgmtMode::AddSubsection.prev(), PluginMgmtMode::AddPlugin);
    assert_eq!(DictionaryColumn::Plugins.next(), DictionaryColumn::StatusCodes);
    assert_eq!(DictionaryColumn::Commands.next(), DictionaryColumn::Plugins);
    assert_eq!(DictionaryColumn::Plugins.prev(), DictionaryColumn::Commands);
    assert_eq!(DirectiveFormStep::SelectTarget.back(), None);
    assert_eq!(DirectiveFormStep::SelectStatus.back(), Some(DirectiveFormStep::SelectTarget));
    assert_eq!(DirectiveFormStep::Confirm.back(), Some(DirectiveFormStep::SelectCommand));
}

#[test]
fn selection_stays_within_the_list() {
    assert_eq!(select_up(None, 0), None);
    assert_eq!(select_up(None, 3), Some(0));
    assert_eq!(select_up(Some(0), 3), Some(0));
    assert_eq!(select_up(Some(2), 3), Some(1));
    assert_eq!(select_down(None, 0), None);
    assert_eq!(select_down(None, 3), Some(0));
    assert_eq!(select_down(Some(0), 3), Some(1));
    assert_eq!(select_down(Some(2), 3), Some(2));
    assert_eq!(select_down(Some(5), 3), Some(5));
    assert_eq!(select_down(Some(0), 0), Some(0));
    assert_eq!(select_down(Some(usize::MAX), usize::MAX), Some(usize::MAX));
}

#[test]
fn priority_and_level_go_round() {
    assert_eq!(cycle_priority(0, true), 1);
    assert_eq!(cycle_priority(2, true), 0);
    assert_eq!(cycle_priority(0, false), 2);
    assert_eq!(cycle_priority(1, false), 0);
    assert_eq!(cycle_level(1, true), 2);
    assert_eq!(cycle_level(5, true), 1);
    assert_eq!(cycle_level(1, false), 5);
    assert_eq!(cycle_level(3, false), 2);
}

#[test]
fn form_becomes_a_rule() {
    let mut form = WipDirective::default();
    assert_eq!(form.target, "");
    form.target = s("ARC_MED_DOOR01");
    form.status = s("Fire");
    form.command_target = s("SEC_CAM_CAM03");
    form.command_name = s("Record");
    form.command_json = s("{}");
    let rule = form.to_rule();
    assert_eq!(rule.if_status_is, "Fire");
    assert_eq!(rule.then_command_target, "SEC_CAM_CAM03");
    assert_eq!(rule.then_command_json, "{}");
}

#[test]
fn text_is_split_at_the_first_occurrence() {
    for (text, needle) in [
        ("a>>b", ">>"),
        ("a>>b>>c", ">>"),
        (">>", ">>"),
        ("a>b", ">>"),
        ("", ">>"),
        ("abc", ""),
        ("", ""),
        ("aaa", "aa"),
        ("日本語>>é", ">>"),
        ("abab", "bab"),
    ] {
        let expected = text.split_once(needle).map(|(a, b)| (a.to_string(), b.to_string()));
        assert_eq!(split_once_text(text, needle), expected);
    }
    assert_eq!(find_chars(&vec!['a', 'b', 'c'], &vec!['c']), Some(2));
    assert_eq!(find_chars(&vec!['a', 'b', 'c'], &vec!['d']), None);
    assert_eq!(find_chars(&vec![], &vec![]), Some(0));
}

#[test]
fn keys_lead_to_views_and_fields() {
    assert_eq!(AuthenticatedMode::from_key('1'), Some(AuthenticatedMode::PluginView));
    assert_eq!(AuthenticatedMode::from_key('2'), Some(AuthenticatedMode::LogView));
    assert_eq!(AuthenticatedMode::from_key('3'), Some(AuthenticatedMode::DirectiveView));
    assert_eq!(AuthenticatedMode::from_key('4'), Some(AuthenticatedMode::PluginMgmtView));
    assert_eq!(AuthenticatedMode::from_key('5'), Some(AuthenticatedMode::DictionaryEditorView));
    assert_eq!(AuthenticatedMode::from_key('6'), None);
    assert_eq!(AuthenticatedMode::from_key('0'), None);
    assert_eq!(LoginFocus::Username.toggle_login(), LoginFocus::Password);
    assert_eq!(LoginFocus::Password.toggle_login(), LoginFocus::Username);
    assert_eq!(LoginFocus::FieldOne.toggle_login(), LoginFocus::FieldOne);
    assert_eq!(LoginFocus::FieldOne.toggle_field(), LoginFocus::FieldTwo);
    assert_eq!(LoginFocus::FieldTwo.toggle_field(), LoginFocus::FieldOne);
    assert_eq!(LoginFocus::Username.toggle_field(), LoginFocus::FieldOne);
    let view = DictionaryEditorMode::View;
    assert_eq!(view.inserting_in(DictionaryColumn::StatusCodes), DictionaryEditorMode::AddStatus);
    assert_eq!(view.inserting_in(DictionaryColumn::Commands), DictionaryEditorMode::AddCommand);
    assert_eq!(view.inserting_in(DictionaryColumn::Plugins), DictionaryEditorMode::View);
}
