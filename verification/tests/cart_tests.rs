use appliance_availability::cart::{CartAction, CartMachine, before_brace};

/// A cart page whose table shows `rows` rows.
fn cart_page(rows: usize) -> String {
    let mut body = String::new();
    for i in 0..rows {
        body.push_str(&format!("<tr><td>item{i}</td></tr>"));
    }
    format!("<html><body><table id=\"myScrollTable\">{body}</table></body></html>")
}

/// An add reply whose table body holds the given rows of cells.
fn add_page(rows: &[Vec<&str>]) -> String {
    let mut body = String::new();
    for row in rows {
        body.push_str("<tr>");
        for cell in row {
            body.push_str(&format!("<td>{cell}</td>"));
        }
        body.push_str("</tr>");
    }
    format!("<html><body><table id=\"myScrollTable\"><tbody>{body}</tbody></table></body></html>")
}

#[test]
fn drain_issues_exactly_three_deletes_for_counts_three_two_one_zero() {
    let (mut machine, action) = CartMachine::start("WOLF123".to_string(), 10);
    assert!(matches!(action, CartAction::GetCount));
    let mut deletes = 0;
    for count in [3usize, 2, 1, 0] {
        let (m, action) = machine.on_cart_page(&cart_page(count));
        machine = m;
        match action {
            CartAction::DeleteFirst => {
                deletes += 1;
                let (m, action) = machine.on_delete(true, String::new());
                machine = m;
                assert!(matches!(action, CartAction::GetCount));
            },
            CartAction::Suggest { model } => {
                assert_eq!(count, 0);
                assert_eq!(model, "WOLF123");
            },
            other => panic!("unexpected action {other:?}"),
        }
    }
    assert_eq!(deletes, 3);
    assert_eq!(machine.deletes_done, 3);
}

#[test]
fn drain_stops_at_the_delete_bound() {
    let (mut machine, _) = CartMachine::start("WOLF123".to_string(), 2);
    for _ in 0..2 {
        let (m, action) = machine.on_cart_page(&cart_page(3));
        machine = m;
        assert!(matches!(action, CartAction::DeleteFirst));
        let (m, action) = machine.on_delete(true, String::new());
        machine = m;
        assert!(matches!(action, CartAction::GetCount));
    }
    let (_, action) = machine.on_cart_page(&cart_page(3));
    match action {
        CartAction::Finish { result } => {
            assert_eq!(result, "Cart did not drain within the delete bound.");
        },
        other => panic!("unexpected action {other:?}"),
    }
}

#[test]
fn a_failed_delete_ends_the_workflow_with_its_description() {
    let (machine, _) = CartMachine::start("WOLF123".to_string(), 5);
    let (machine, action) = machine.on_cart_page(&cart_page(1));
    assert!(matches!(action, CartAction::DeleteFirst));
    let (_, action) = machine.on_delete(false, "Failed to remove item from cart.".to_string());
    match action {
        CartAction::Finish { result } => assert_eq!(result, "Failed to remove item from cart."),
        other => panic!("unexpected action {other:?}"),
    }
}

#[test]
fn a_page_without_the_table_counts_as_drained() {
    let (machine, _) = CartMachine::start("WOLF123".to_string(), 5);
    let (_, action) = machine.on_cart_page("<html><body>maintenance</body></html>");
    assert!(matches!(action, CartAction::Suggest { .. }));
}

#[test]
fn validation_takes_the_prefix_before_the_first_brace() {
    assert_eq!(before_brace("WOLF123{\"suggest\":[]}"), "WOLF123");
    assert_eq!(before_brace("WOLF123"), "WOLF123");
    assert_eq!(before_brace("{\"suggest\":[]}"), "");
}

#[test]
fn the_validated_model_is_what_gets_added() {
    let (machine, _) = CartMachine::start("WOLF 123".to_string(), 5);
    let (machine, action) = machine.on_cart_page(&cart_page(0));
    assert!(matches!(action, CartAction::Suggest { .. }));
    let (machine, action) = machine.on_suggest(true, "WOLF123{\"rest\":1}".to_string());
    match action {
        CartAction::AddItem { model } => assert_eq!(model, "WOLF123"),
        other => panic!("unexpected action {other:?}"),
    }
    assert_eq!(machine.model_number, "WOLF123");
}

#[test]
fn a_failed_suggest_ends_with_its_description() {
    let (machine, _) = CartMachine::start("WOLF123".to_string(), 5);
    let (machine, _) = machine.on_cart_page(&cart_page(0));
    let (_, action) = machine.on_suggest(false, "Failed to get suggested items.".to_string());
    match action {
        CartAction::Finish { result } => assert_eq!(result, "Failed to get suggested items."),
        other => panic!("unexpected action {other:?}"),
    }
}

fn adding_machine() -> CartMachine {
    let (machine, _) = CartMachine::start("WOLF123".to_string(), 5);
    let (machine, _) = machine.on_cart_page(&cart_page(0));
    let (machine, _) = machine.on_suggest(true, "WOLF123".to_string());
    machine
}

#[test]
fn the_answer_is_the_eighth_cell_of_the_added_row() {
    let row = vec!["1", "WOLF123", "desc", "qty", "price", "x", "y", "03/15/2025"];
    let (_, action) = adding_machine().on_add(true, add_page(&[row]));
    match action {
        CartAction::Finish { result } => assert_eq!(result, "03/15/2025"),
        other => panic!("unexpected action {other:?}"),
    }
}

#[test]
fn the_last_row_with_an_eighth_cell_wins() {
    let first = vec!["1", "a", "b", "c", "d", "e", "f", "01/01/2025"];
    let second = vec!["2", "a", "b", "c", "d", "e", "f", "02/02/2025"];
    let (_, action) = adding_machine().on_add(true, add_page(&[first, second]));
    match action {
        CartAction::Finish { result } => assert_eq!(result, "02/02/2025"),
        other => panic!("unexpected action {other:?}"),
    }
}

#[test]
fn a_short_row_cannot_answer() {
    let row = vec!["1", "WOLF123", "desc"];
    let (_, action) = adding_machine().on_add(true, add_page(&[row]));
    match action {
        CartAction::Finish { result } => assert_eq!(result, "Error finding item."),
        other => panic!("unexpected action {other:?}"),
    }
}

#[test]
fn an_add_reply_without_the_table_cannot_answer() {
    let (_, action) = adding_machine().on_add(true, "<html><body></body></html>".to_string());
    match action {
        CartAction::Finish { result } => assert_eq!(result, "Error finding item."),
        other => panic!("unexpected action {other:?}"),
    }
}

#[test]
fn a_failed_add_ends_with_its_description() {
    let (_, action) = adding_machine().on_add(false, "Failed to add item to cart.".to_string());
    match action {
        CartAction::Finish { result } => assert_eq!(result, "Failed to add item to cart."),
        other => panic!("unexpected action {other:?}"),
    }
}
