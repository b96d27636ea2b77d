use bevy_paths::{placeholders, resolve_template, Field, FieldValue};

fn text(name: &str, value: &str) -> Field {
    Field::new(name, FieldValue::Text(value.to_string()))
}

#[test]
fn every_occurrence_is_replaced() {
    assert_eq!(
        resolve_template("backup/{date}/{date}_save.json", &vec![text("date", "2024-01-01")]),
        "backup/2024-01-01/2024-01-01_save.json"
    );
    assert_eq!(resolve_template("{a}{a}{a}", &vec![text("a", "xy")]), "xyxyxy");
    assert_eq!(resolve_template("{a}", &vec![text("a", "")]), "");
}

#[test]
fn placeholders_are_filled_in_either_order() {
    let x = Field::new("x", FieldValue::Signed(10));
    let y = Field::new("y", FieldValue::Signed(-5));
    assert_eq!(
        resolve_template("chunks/{x}_{y}.dat", &vec![x.clone(), y.clone()]),
        "chunks/10_-5.dat"
    );
    assert_eq!(resolve_template("chunks/{x}_{y}.dat", &vec![y, x]), "chunks/10_-5.dat");
}

#[test]
fn fields_are_applied_one_after_the_other() {
    // What an earlier field puts in is seen by a later one.
    assert_eq!(resolve_template("{a}", &vec![text("a", "{b}"), text("b", "end")]), "end");
    // But not by an earlier one.
    assert_eq!(resolve_template("{a}", &vec![text("b", "end"), text("a", "{b}")]), "{b}");
    // One field is applied to the template once: what it put in is not searched again.
    assert_eq!(resolve_template("{a}", &vec![text("a", "{a}{a}")]), "{a}{a}");
}

#[test]
fn undeclared_placeholder_is_left_untouched() {
    assert_eq!(resolve_template("levels/{id}/map.dat", &vec![]), "levels/{id}/map.dat");
    assert_eq!(
        resolve_template("levels/{id}/map.dat", &vec![text("region", "north")]),
        "levels/{id}/map.dat"
    );
    assert_eq!(
        resolve_template("levels/{region}/{id}", &vec![text("id", "7")]),
        "levels/{region}/7"
    );
}

#[test]
fn only_whole_placeholders_match() {
    assert_eq!(resolve_template("{id", &vec![text("id", "7")]), "{id");
    assert_eq!(resolve_template("id}", &vec![text("id", "7")]), "id}");
    assert_eq!(resolve_template("{ id }", &vec![text("id", "7")]), "{ id }");
    assert_eq!(resolve_template("{ID}", &vec![text("id", "7")]), "{ID}");
    assert_eq!(resolve_template("{{id}}", &vec![text("id", "7")]), "{7}");
    assert_eq!(resolve_template("{}", &vec![text("", "empty")]), "empty");
    assert_eq!(resolve_template("", &vec![text("id", "7")]), "");
}

#[test]
fn replacement_agrees_with_the_standard_library() {
    let templates = [
        "levels/{id}/map.dat",
        "{id}{id}",
        "{{id}id}",
        "{id{id}}",
        "a{id}b{id}c{idx}",
        "no placeholder",
        "",
        "{i{id}d}",
        "caf\u{e9}/{id}/\u{1f600}",
    ];
    let values = ["", "7", "{id}", "a/b", "}{", "\u{1f600}"];
    for template in templates {
        for value in values {
            assert_eq!(
                resolve_template(template, &vec![text("id", value)]),
                template.replace("{id}", value)
            );
        }
    }
}

#[test]
fn integers_are_written_in_decimal() {
    assert_eq!(FieldValue::Unsigned(0).to_text(), "0");
    assert_eq!(FieldValue::Unsigned(5).to_text(), "5");
    assert_eq!(FieldValue::Unsigned(10).to_text(), "10");
    assert_eq!(FieldValue::Unsigned(1234567890).to_text(), "1234567890");
    assert_eq!(FieldValue::Unsigned(u128::MAX).to_text(), u128::MAX.to_string());
    assert_eq!(
        FieldValue::Unsigned(u128::MAX).to_text(),
        "340282366920938463463374607431768211455"
    );
    assert_eq!(FieldValue::Signed(0).to_text(), "0");
    assert_eq!(FieldValue::Signed(10).to_text(), "10");
    assert_eq!(FieldValue::Signed(-5).to_text(), "-5");
    assert_eq!(FieldValue::Signed(-100).to_text(), "-100");
    assert_eq!(FieldValue::Signed(i128::MAX).to_text(), i128::MAX.to_string());
    assert_eq!(FieldValue::Signed(i128::MIN).to_text(), i128::MIN.to_string());
    assert_eq!(
        FieldValue::Signed(i128::MIN).to_text(),
        "-170141183460469231731687303715884105728"
    );
    for n in [1u128, 9, 11, 99, 100, 101, 999, 1000, 65535, 4294967296] {
        assert_eq!(FieldValue::Unsigned(n).to_text(), n.to_string());
        assert_eq!(FieldValue::Signed(-(n as i128)).to_text(), (-(n as i128)).to_string());
    }
}

#[test]
fn other_values_are_written_as_text() {
    assert_eq!(FieldValue::Bool(true).to_text(), "true");
    assert_eq!(FieldValue::Bool(false).to_text(), "false");
    assert_eq!(FieldValue::Text("toxic_sewers".to_string()).to_text(), "toxic_sewers");
    assert_eq!(FieldValue::Text(String::new()).to_text(), "");
    // A number with a fraction is handed over as the text the caller chose.
    assert_eq!(FieldValue::Text(1.5f64.to_string()).to_text(), "1.5");
}

#[test]
fn typed_values_fill_a_template() {
    let fields = vec![
        text("region", "toxic_sewers"),
        Field::new("id", FieldValue::Unsigned(5)),
        Field::new("hard", FieldValue::Bool(true)),
    ];
    assert_eq!(
        resolve_template("levels/{region}/dungeon_{id}_{hard}.map", &fields),
        "levels/toxic_sewers/dungeon_5_true.map"
    );
}

#[test]
fn field_keeps_name_and_value() {
    let f = Field::new("id", FieldValue::Signed(-1));
    assert_eq!(f.name, "id");
    assert_eq!(f.value, FieldValue::Signed(-1));
}

#[test]
fn placeholder_names_in_order_of_first_appearance() {
    assert_eq!(placeholders("levels/{region}/dungeon_{id}.map"), vec!["region", "id"]);
    assert_eq!(placeholders("backup/{date}/{date}_save.json"), vec!["date"]);
    assert_eq!(placeholders("{b}{a}{b}{c}{a}"), vec!["b", "a", "c"]);
    assert_eq!(placeholders("chunks/{x}_{y}.dat"), vec!["x", "y"]);
    assert_eq!(placeholders("saves/slot_1"), Vec::<String>::new());
    assert_eq!(placeholders(""), Vec::<String>::new());
}

#[test]
fn only_closed_brace_pairs_are_placeholders() {
    assert_eq!(placeholders("{a"), Vec::<String>::new());
    assert_eq!(placeholders("a}"), Vec::<String>::new());
    assert_eq!(placeholders("}{"), Vec::<String>::new());
    assert_eq!(placeholders("{a{b}}"), vec!["b"]);
    assert_eq!(placeholders("{{a}}"), vec!["a"]);
    assert_eq!(placeholders("{}"), vec![""]);
    assert_eq!(placeholders("{a b}/{\u{e9}}"), vec!["a b", "\u{e9}"]);
    assert_eq!(placeholders("{a}{"), vec!["a"]);
}

#[test]
fn filling_every_name_leaves_no_placeholder() {
    let template = "levels/{region}/dungeon_{id}_{region}.map";
    let fields: Vec<Field> =
        placeholders(template).iter().map(|name| text(name, "v")).collect();
    let filled = resolve_template(template, &fields);
    assert_eq!(filled, "levels/v/dungeon_v_v.map");
    assert_eq!(placeholders(&filled), Vec::<String>::new());
}
