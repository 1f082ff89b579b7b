use rivect::config::document::{tree_of, NewValue, Toml};
use rivect::config::fields::{set_field, set_trailing_preserving};
use rivect::config::settings::model_item;
use rivect::config::ModelAssign;
use toml_edit::{DocumentMut, InlineTable, Item, Table, Value};

#[test]
fn set_field_preserves_existing_inline_trailing_comment() {
    let mut old = InlineTable::new();
    old.insert("mode", "auto".into());
    old.insert("stale", "old".into());
    old.set_trailing_comma(false);
    old.set_trailing(" # existing\n");
    old.get_mut("mode")
        .expect("mode value")
        .decor_mut()
        .set_suffix(" # mode");
    old.get_mut("stale")
        .expect("stale value")
        .decor_mut()
        .set_suffix(" # stale");

    let mut root = Table::new();
    root.insert("model", Item::Value(Value::InlineTable(old)));

    let mut document = DocumentMut::from(root);
    let value: NewValue = model_item(&ModelAssign::Inherit);
    set_field(&mut document, &Vec::new(), "model", &value);

    let bytes = document.to_string();
    let reparsed: Result<DocumentMut, _> = bytes.parse();
    assert!(
        reparsed.is_ok(),
        "rendered inline table must remain valid TOML: {bytes}"
    );
    let model_start = bytes.find("model = {").expect("model assignment");
    let model_end = bytes[model_start..]
        .find('}')
        .map(|offset| model_start + offset)
        .expect("model table terminator");
    let model = &bytes[model_start..=model_end];
    assert!(model.contains("# existing"), "{model}");
    assert!(model.contains("# stale"), "{model}");
}

fn render_inline_table(inline: InlineTable) -> String {
    let mut root = Table::new();
    root.insert("model", Item::Value(Value::InlineTable(inline)));
    DocumentMut::from(root).to_string()
}

fn assert_valid_toml(rendered: &str) {
    assert!(
        rendered.parse::<DocumentMut>().is_ok(),
        "rendered inline table must remain valid TOML: {rendered}"
    );
}

fn merge_trailing(inline: &mut InlineTable, suffix: Option<String>) {
    let existing = inline.trailing().as_str().map(str::to_string);
    if let Some(merged) = set_trailing_preserving(&existing, &suffix) {
        inline.set_trailing(merged);
    }
}

#[test]
fn set_trailing_preserving_handles_newline_suffix() {
    let mut inline = InlineTable::new();
    inline.insert("mode", "inherit".into());
    inline.set_trailing(" # existing");

    merge_trailing(&mut inline, Some(" # stale\n".to_string()));

    let rendered = render_inline_table(inline);
    assert_valid_toml(&rendered);
    assert!(rendered.contains("# existing"), "{rendered}");
    assert!(rendered.contains("# stale"), "{rendered}");
}

#[test]
fn set_trailing_preserving_terminates_comment_without_existing_trailing() {
    let mut inline = InlineTable::new();
    inline.insert("mode", "inherit".into());
    inline.set_trailing("");

    merge_trailing(&mut inline, Some(" # stale".to_string()));

    let rendered = render_inline_table(inline);
    assert_valid_toml(&rendered);
    assert!(rendered.contains("# stale"), "{rendered}");
}

#[test]
fn set_trailing_preserving_keeps_existing_trailing_for_unresolved_suffix() {
    let source: toml_edit::Document<&str> =
        toml_edit::Document::parse("model = { mode = \"auto\", stale = \"old\" }")
            .expect("source TOML");
    let suffix = source
        .as_table()
        .get("model")
        .and_then(Item::as_value)
        .and_then(Value::as_inline_table)
        .and_then(|table| table.get("stale"))
        .and_then(|value| value.decor().suffix())
        .cloned()
        .expect("stale suffix");
    assert!(suffix.as_str().is_none(), "fixture must keep suffix span");

    let mut inline = InlineTable::new();
    inline.insert("mode", "inherit".into());
    inline.set_trailing(" # existing");
    let before = render_inline_table(inline.clone());

    merge_trailing(&mut inline, suffix.as_str().map(str::to_string));

    assert_eq!(render_inline_table(inline), before);
}

fn fields(entries: Vec<(&str, NewValue)>) -> NewValue {
    NewValue::Fields(entries.into_iter().map(|(k, v)| (k.to_string(), v)).collect())
}

fn word(text: &str) -> NewValue {
    NewValue::Word(text.to_string())
}

#[test]
fn a_nested_table_merges_entry_by_entry() {
    let text = "model = { mode = \"auto\", deep = { a =   \"x\", stale = true } }\n";
    let mut document: DocumentMut = text.parse().expect("parses");
    let value = fields(vec![("mode", word("fixed")), ("deep", fields(vec![("a", word("y"))]))]);
    set_field(&mut document, &Vec::new(), "model", &value);

    let rendered = document.to_string();
    assert_valid_toml(&rendered);
    assert!(rendered.contains("a =   \"y\""), "the inner value keeps its place: {rendered}");
    assert!(!rendered.contains("stale"), "{rendered}");
    assert!(rendered.contains("mode = \"fixed\""), "{rendered}");
}

#[test]
fn a_nested_comment_survives_its_entry() {
    let mut deep = InlineTable::new();
    deep.insert("a", "x".into());
    deep.insert("stale", "old".into());
    deep.get_mut("stale").expect("stale value").decor_mut().set_suffix(" # inner\n");
    let mut old = InlineTable::new();
    old.insert("deep", Value::InlineTable(deep));
    let mut root = Table::new();
    root.insert("model", Item::Value(Value::InlineTable(old)));
    let mut document = DocumentMut::from(root);
    assert_valid_toml(&document.to_string());

    let value = fields(vec![("deep", fields(vec![("a", word("y"))]))]);
    set_field(&mut document, &Vec::new(), "model", &value);

    let rendered = document.to_string();
    assert_valid_toml(&rendered);
    assert!(rendered.contains("# inner"), "{rendered}");
    assert!(!rendered.contains("stale"), "{rendered}");
}

#[test]
fn a_new_entry_goes_last_past_an_empty_slot() {
    let mut root = Table::new();
    root.insert("slot", Item::None);
    root.insert("other", Item::Value(true.into()));
    let mut document = DocumentMut::from(root);
    set_field(&mut document, &Vec::new(), "slot", &NewValue::Flag(true));
    assert_eq!(document.to_string(), "other = true\nslot = true\n");
}

#[test]
fn a_table_inside_an_inline_table_is_passed_over() {
    let mut document: DocumentMut = "model = { mode = \"auto\" }\n".parse().expect("parses");
    document["model"]["odd"] = Item::Table(Table::new());
    let Toml::Table(root) = tree_of(&document) else {
        panic!("the root is a table");
    };
    let Toml::Inline(model) = &root[0].1 else {
        panic!("the model is an inline table");
    };
    assert_eq!(model.len(), 1);
    assert_eq!(model[0].0, "mode");
    assert!(matches!(&model[0].1, Toml::Text(t) if t == "auto"));
}
