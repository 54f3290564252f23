use rvy::generator::{normalize, render, to_pascal_case, to_snake_case};

#[test]
fn snake_form_replaces_hyphens() {
    assert_eq!(to_snake_case("order-item"), "order_item");
    assert_eq!(to_snake_case("order_item"), "order_item");
    assert_eq!(to_snake_case("Order-Item-X"), "Order_Item_X");
    assert_eq!(to_snake_case(""), "");
}

#[test]
fn pascal_form_capitalizes_words() {
    assert_eq!(to_pascal_case("order-item"), "OrderItem");
    assert_eq!(to_pascal_case("order_item"), "OrderItem");
    assert_eq!(to_pascal_case("order"), "Order");
    assert_eq!(to_pascal_case("orderItem"), "OrderItem");
}

#[test]
fn pascal_form_skips_empty_segments() {
    assert_eq!(to_pascal_case("a--b"), "AB");
    assert_eq!(to_pascal_case("_order__item-"), "OrderItem");
    assert_eq!(to_pascal_case("--"), "");
}

#[test]
fn pascal_form_uses_full_upper_case_mapping() {
    assert_eq!(to_pascal_case("straße-öl"), "StraßeÖl");
    assert_eq!(to_pascal_case("ßx"), "SSx");
}

#[test]
fn pascal_form_ignores_separator_kind() {
    for raw in ["order-item", "a-b_c", "x--y", "-lead", "plain"] {
        assert_eq!(to_pascal_case(raw), to_pascal_case(&to_snake_case(raw)));
    }
}

#[test]
fn normalize_derives_both_forms() {
    let id = normalize("order-item");
    assert_eq!(id.raw, "order-item");
    assert_eq!(id.snake, "order_item");
    assert_eq!(id.pascal, "OrderItem");
    assert_eq!(normalize("order_item").pascal, "OrderItem");
}

#[test]
fn render_substitutes_every_placeholder() {
    let template = "[package]\nname = \"{{package_name}}\"\nmod {{name}};\nstruct {{Name}}Service;\n// {{name}} again\n";
    assert_eq!(
        render(template, "order-item"),
        "[package]\nname = \"order-item\"\nmod order_item;\nstruct OrderItemService;\n// order_item again\n"
    );
}

#[test]
fn render_leaves_other_text_alone() {
    assert_eq!(render("no placeholders {{other}}", "x"), "no placeholders {{other}}");
    assert_eq!(render("", "x"), "");
}
