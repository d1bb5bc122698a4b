use slipway::debugger::get_handle;
use slipway::view_model::{
    to_shortcuts, to_view_model, ComponentViewModel, ExecutionModel, RigExecutionStateViewModel,
};

fn strings(v: &[&str]) -> Vec<String> {
    v.iter().map(|s| s.to_string()).collect()
}

fn model(groups: &[&[&str]], order: &[&str], dependencies: &[&[&str]]) -> ExecutionModel {
    ExecutionModel {
        groups: groups.iter().map(|g| strings(g)).collect(),
        execution_order: strings(order),
        dependencies: dependencies.iter().map(|d| strings(d)).collect(),
    }
}

fn get_component<'a>(vm: &'a RigExecutionStateViewModel, handle: &str) -> &'a ComponentViewModel {
    vm.groups
        .iter()
        .flat_map(|g| g.components.iter())
        .find(|c| c.handle == handle)
        .expect("Component should exist")
}

#[test]
fn it_should_generate_sensible_shortcuts() {
    let state = model(
        &[&["cat", "coat", "coal", "coast", "dog"]],
        &["cat", "coat", "coal", "coast", "dog"],
        &[&[], &["cat"], &["coat"], &["coal"], &["coast"]],
    );
    let view_model = to_view_model(&state);
    assert_eq!(view_model.groups.len(), 1);
    assert_eq!(get_component(&view_model, "cat").shortcut, "c");
    assert_eq!(get_component(&view_model, "coat").shortcut, "co");
    assert_eq!(get_component(&view_model, "coal").shortcut, "coa");
    assert_eq!(get_component(&view_model, "coast").shortcut, "coas");
    assert_eq!(get_component(&view_model, "dog").shortcut, "d");
}

#[test]
fn it_should_set_group_and_row_indexes() {
    let state = model(
        &[&["a", "b", "c"], &["d", "e"], &["f"]],
        &["a", "b", "c", "d", "e", "f"],
        &[&[], &["a"], &["b"], &[], &["d"], &[]],
    );
    let view_model = to_view_model(&state);
    assert_eq!(view_model.groups.len(), 3);
    let place = |h: &str| {
        let c = get_component(&view_model, h);
        (c.group_index, c.row_index)
    };
    assert_eq!(place("a"), (0, 0));
    assert_eq!(place("b"), (0, 1));
    assert_eq!(place("c"), (0, 2));
    assert_eq!(place("d"), (1, 0));
    assert_eq!(place("e"), (1, 1));
    assert_eq!(place("f"), (2, 0));
}

#[test]
fn it_should_set_input_and_output_indexes() {
    let state = model(
        &[&["a", "b", "c", "d"], &["e", "f"], &["g"]],
        &["a", "b", "c", "d", "e", "f", "g"],
        &[&[], &["a"], &["a"], &["c", "b"], &[], &["e"], &[]],
    );
    let view_model = to_view_model(&state);
    assert_eq!(view_model.groups.len(), 3);
    let empty = Vec::<usize>::new();
    let io = |h: &str| {
        let c = get_component(&view_model, h);
        (c.input_columns_indexes.clone(), c.output_row_indexes.clone())
    };
    assert_eq!(io("a"), (empty.clone(), vec![1, 2]));
    assert_eq!(io("b"), (vec![0], vec![3]));
    assert_eq!(io("c"), (vec![0], vec![3]));
    assert_eq!(io("d"), (vec![1, 2], empty.clone()));
    assert_eq!(io("e"), (empty.clone(), vec![1]));
    assert_eq!(io("f"), (vec![0], empty.clone()));
    assert_eq!(io("g"), (empty.clone(), empty.clone()));
}

#[test]
fn shortcuts_follow_the_visit_order_of_groups() {
    // The view model gives shortcuts group by group; the debugger's list follows the
    // execution order.
    let state = model(&[&["ab"], &["aa"]], &["aa", "ab"], &[&[], &[]]);
    let view_model = to_view_model(&state);
    assert_eq!(get_component(&view_model, "ab").shortcut, "a");
    assert_eq!(get_component(&view_model, "aa").shortcut, "aa");
    let shortcuts = to_shortcuts(&state.execution_order);
    assert_eq!(
        shortcuts,
        vec![
            ("a".to_string(), "aa".to_string()),
            ("ab".to_string(), "ab".to_string())
        ]
    );
}

#[test]
fn a_handle_whose_prefixes_are_all_taken_takes_no_shortcut() {
    let order = strings(&["a", "a", "", "ab"]);
    let shortcuts = to_shortcuts(&order);
    assert_eq!(
        shortcuts,
        vec![
            ("a".to_string(), "a".to_string()),
            ("ab".to_string(), "ab".to_string())
        ]
    );
}

#[test]
fn the_debugger_finds_components_by_their_shortcuts() {
    let order = strings(&["render", "resize", "fetch"]);
    let shortcuts = to_shortcuts(&order);
    assert_eq!(get_handle("r", &shortcuts, &order).unwrap(), "render");
    assert_eq!(get_handle("re", &shortcuts, &order).unwrap(), "resize");
    assert_eq!(get_handle("f", &shortcuts, &order).unwrap(), "fetch");
    assert_eq!(get_handle("fetch", &shortcuts, &order).unwrap(), "fetch");
    assert!(get_handle("x", &shortcuts, &order).is_err());
}
