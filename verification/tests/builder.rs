use cthulhu::action::Action;
use cthulhu::builder::StateMachineBuilder;
use cthulhu::data_structure::{
    StateMachineFile, StateMachineMergeMode, StateMachineState, StateMachineTransition,
    StateMachineTrigger, StateMap,
};
use cthulhu::error::EngineError;
use cthulhu::state::StateMachine;

fn string_trigger(text: &str) -> StateMachineTrigger {
    StateMachineTrigger::String { string: text.to_string() }
}

fn transition(target: &str, trigger: StateMachineTrigger, actions: Vec<Action>) -> StateMachineTransition {
    StateMachineTransition { target: target.to_string(), trigger, actions }
}

fn state(merge: StateMachineMergeMode, transitions: Vec<StateMachineTransition>) -> StateMachineState {
    StateMachineState { merge, transitions }
}

fn fragment(id: &str, depends: &[&str], states: Vec<(&str, StateMachineState)>) -> StateMachineFile {
    let mut map = StateMap::new();
    for (name, s) in states {
        map.insert(name.to_string(), s);
    }
    StateMachineFile {
        id: id.to_string(),
        depends: depends.iter().map(|d| d.to_string()).collect(),
        states: map,
    }
}

fn x_state(merge: StateMachineMergeMode, needle: &str) -> StateMachineState {
    state(merge, vec![transition("Init", string_trigger(needle), vec![])])
}

fn sorted(mut names: Vec<String>) -> Vec<String> {
    names.sort();
    names
}

#[test]
fn build_without_fragments_keeps_builtin_states() {
    let sm = StateMachineBuilder::new().build().unwrap();
    assert_eq!(sorted(sm.states()), vec!["EndJob", "Init", "JobFinished", "SwitchDetect"]);
    let init = sm.get_state("Init").unwrap();
    assert_eq!(init.merge, StateMachineMergeMode::Replace);
    assert_eq!(
        init.transitions,
        vec![transition("SwitchDetect", StateMachineTrigger::Immediate, vec![Action::SetupJob])]
    );
    let detect = sm.state("SwitchDetect").unwrap();
    assert_eq!(
        detect.transitions,
        vec![transition(
            "SwitchDetect",
            string_trigger("A non-empty Data Buffering File was found."),
            vec![Action::SendLine { line: "E".to_string() }],
        )]
    );
    let end = sm.state("EndJob").unwrap();
    assert_eq!(
        end.transitions,
        vec![transition("JobFinished", StateMachineTrigger::Immediate, vec![Action::FinishJob])]
    );
    let finished = sm.state("JobFinished").unwrap();
    assert_eq!(
        finished.transitions,
        vec![transition("JobFinished", string_trigger("AAAAAAAAAAAAAAAAAAAAAAAAAAA"), vec![])]
    );
}

#[test]
fn default_graph_is_the_builtin_graph() {
    let sm = StateMachine::default();
    assert_eq!(sorted(sm.states()), vec!["EndJob", "Init", "JobFinished", "SwitchDetect"]);
    assert!(sm.has_state("Init"));
    assert!(!sm.has_state("Detected"));
    assert!(sm.get_state("Detected").is_none());
    assert_eq!(
        sm.state("Detected").unwrap_err(),
        EngineError::UnknownState { state: "Detected".to_string() }
    );
}

#[test]
fn loading_does_not_activate() {
    let mut b = StateMachineBuilder::new();
    b.load_state_file(fragment("base", &[], vec![]));
    assert_eq!(b.loaded_state_file_ids(), vec!["base"]);
    assert!(!b.is_state_file_active("base"));
    assert!(b.active_state_file_ids().is_empty());
}

#[test]
fn activation_reaches_the_whole_dependency_closure() {
    let mut b = StateMachineBuilder::new();
    b.load_state_file(fragment("f", &["a", "b"], vec![]));
    b.load_state_file(fragment("a", &["c"], vec![]));
    b.load_state_file(fragment("b", &[], vec![]));
    b.load_state_file(fragment("c", &[], vec![]));
    b.load_state_file(fragment("unrelated", &[], vec![]));
    b.activate_state_file("f").unwrap();
    assert!(b.is_state_file_active("f"));
    assert!(b.is_state_file_active("a"));
    assert!(b.is_state_file_active("b"));
    assert!(b.is_state_file_active("c"));
    assert!(!b.is_state_file_active("unrelated"));
    assert_eq!(b.active_state_file_ids(), vec!["f", "a", "c", "b"]);
}

#[test]
fn activation_is_idempotent() {
    let mut b = StateMachineBuilder::new();
    b.load_state_file(fragment("a", &[], vec![]));
    b.activate_state_file("a").unwrap();
    b.activate_state_file("a").unwrap();
    assert_eq!(b.active_state_file_ids(), vec!["a"]);
}

#[test]
fn activation_of_an_unknown_fragment_fails() {
    let mut b = StateMachineBuilder::new();
    b.load_state_file(fragment("a", &["missing"], vec![]));
    assert_eq!(
        b.activate_state_file("nowhere").unwrap_err(),
        EngineError::FragmentNotFound { id: "nowhere".to_string() }
    );
    assert_eq!(
        b.activate_state_file("a").unwrap_err(),
        EngineError::FragmentNotFound { id: "missing".to_string() }
    );
    assert!(b.is_state_file_active("a"));
}

#[test]
fn the_fragment_loaded_last_is_the_one_activated() {
    let mut b = StateMachineBuilder::new();
    b.load_state_file(fragment("a", &[], vec![("X", x_state(StateMachineMergeMode::Replace, "first"))]));
    b.load_state_file(fragment("a", &[], vec![("X", x_state(StateMachineMergeMode::Replace, "second"))]));
    b.activate_state_file("a").unwrap();
    assert_eq!(b.active_state_file_ids(), vec!["a"]);
    let sm = b.build().unwrap();
    assert_eq!(sm.state("X").unwrap().transitions[0].trigger, string_trigger("second"));
}

#[test]
fn activating_all_activates_every_loaded_fragment() {
    let mut b = StateMachineBuilder::new();
    b.load_state_file(fragment("c", &["b"], vec![]));
    b.load_state_file(fragment("b", &["a"], vec![]));
    b.load_state_file(fragment("a", &[], vec![]));
    b.active_all_state_files().unwrap();
    assert_eq!(b.active_state_file_ids(), vec!["c", "b", "a"]);
}

#[test]
fn activating_a_list_activates_each_with_its_dependencies() {
    let mut b = StateMachineBuilder::new();
    b.load_state_file(fragment("a", &[], vec![]));
    b.load_state_file(fragment("b", &["a"], vec![]));
    b.load_state_file(fragment("c", &[], vec![]));
    b.activate_state_files(&vec!["b".to_string(), "c".to_string()]).unwrap();
    assert_eq!(b.active_state_file_ids(), vec!["b", "a", "c"]);
}

#[test]
fn a_chain_is_merged_from_its_root_upwards() {
    let mut b = StateMachineBuilder::new();
    b.load_state_file(fragment("C", &["B"], vec![("X", x_state(StateMachineMergeMode::Replace, "from C"))]));
    b.load_state_file(fragment("B", &["A"], vec![("X", x_state(StateMachineMergeMode::Replace, "from B"))]));
    b.load_state_file(fragment("A", &[], vec![("X", x_state(StateMachineMergeMode::Replace, "from A"))]));
    b.activate_state_file("C").unwrap();
    assert_eq!(b.active_state_file_ids(), vec!["C", "B", "A"]);
    assert_eq!(b.merge_order().unwrap(), vec!["A", "B", "C"]);
    let sm = b.build().unwrap();
    assert_eq!(sm.state("X").unwrap(), x_state(StateMachineMergeMode::Replace, "from C"));
}

#[test]
fn append_keeps_earlier_transitions_first() {
    let t1 = transition("Init", string_trigger("t1"), vec![]);
    let t2 = transition("Init", string_trigger("t2"), vec![Action::Flush]);
    let mut b = StateMachineBuilder::new();
    b.load_state_file(fragment(
        "base",
        &[],
        vec![("X", state(StateMachineMergeMode::Replace, vec![t1.clone()]))],
    ));
    b.load_state_file(fragment(
        "upper",
        &["base"],
        vec![("X", state(StateMachineMergeMode::Append, vec![t2.clone()]))],
    ));
    b.activate_state_file("upper").unwrap();
    let sm = b.build().unwrap();
    let x = sm.state("X").unwrap();
    assert_eq!(x.transitions, vec![t1, t2]);
    assert_eq!(x.merge, StateMachineMergeMode::Replace);
}

#[test]
fn append_to_a_state_that_is_new_defines_it() {
    let t = transition("Init", string_trigger("t"), vec![]);
    let mut b = StateMachineBuilder::new();
    b.load_state_file(fragment(
        "only",
        &[],
        vec![("Fresh", state(StateMachineMergeMode::Append, vec![t.clone()]))],
    ));
    b.activate_state_file("only").unwrap();
    let sm = b.build().unwrap();
    assert_eq!(sm.state("Fresh").unwrap(), state(StateMachineMergeMode::Append, vec![t]));
}

#[test]
fn merging_into_a_graph_by_hand() {
    let mut sm = StateMachine::default();
    let mut states = StateMap::new();
    states.insert(
        "Init".to_string(),
        state(
            StateMachineMergeMode::Append,
            vec![transition("EndJob", string_trigger("bye"), vec![])],
        ),
    );
    states.insert("Extra".to_string(), x_state(StateMachineMergeMode::Replace, "x"));
    sm.merge_states(states);
    assert_eq!(
        sorted(sm.states()),
        vec!["EndJob", "Extra", "Init", "JobFinished", "SwitchDetect"]
    );
    let init = sm.state("Init").unwrap();
    assert_eq!(
        init.transitions,
        vec![
            transition("SwitchDetect", StateMachineTrigger::Immediate, vec![Action::SetupJob]),
            transition("EndJob", string_trigger("bye"), vec![]),
        ]
    );
}

#[test]
fn a_cycle_fails_the_build() {
    let mut b = StateMachineBuilder::new();
    b.load_state_file(fragment("A", &["B"], vec![]));
    b.load_state_file(fragment("B", &["A"], vec![]));
    b.activate_state_file("A").unwrap();
    assert!(b.is_state_file_active("B"));
    assert_eq!(b.build().unwrap_err(), EngineError::NoRootFragment);
}

#[test]
fn a_cycle_beside_a_root_fails_the_build() {
    let mut b = StateMachineBuilder::new();
    b.load_state_file(fragment("root", &[], vec![]));
    b.load_state_file(fragment("A", &["B"], vec![]));
    b.load_state_file(fragment("B", &["A"], vec![]));
    b.active_all_state_files().unwrap();
    assert_eq!(b.merge_order().unwrap_err(), EngineError::UnsortableFragments);
    assert_eq!(b.active_state_file_ids(), vec!["root", "A", "B"]);
    assert_eq!(b.build().unwrap_err(), EngineError::UnsortableFragments);
}

#[test]
fn of_two_ready_fragments_the_earlier_one_is_merged_first() {
    let mut b = StateMachineBuilder::new();
    b.load_state_file(fragment("a", &[], vec![]));
    b.load_state_file(fragment("b", &[], vec![]));
    b.load_state_file(fragment("c", &["b"], vec![]));
    b.active_all_state_files().unwrap();
    assert_eq!(b.merge_order().unwrap(), vec!["a", "b", "c"]);
}

#[test]
fn ordering_nothing_succeeds() {
    let b = StateMachineBuilder::new();
    assert!(b.merge_order().unwrap().is_empty());
}

#[test]
fn a_dangling_target_fails_the_build() {
    let mut b = StateMachineBuilder::new();
    b.load_state_file(fragment(
        "base",
        &[],
        vec![(
            "X",
            state(
                StateMachineMergeMode::Replace,
                vec![transition("Nowhere", string_trigger("x"), vec![])],
            ),
        )],
    ));
    b.activate_state_file("base").unwrap();
    assert_eq!(
        b.build().unwrap_err(),
        EngineError::DanglingTarget { state: "X".to_string(), target: "Nowhere".to_string() }
    );
}

#[test]
fn every_target_of_a_built_graph_is_a_state_of_it() {
    let mut b = StateMachineBuilder::new();
    b.load_state_file(fragment(
        "base",
        &[],
        vec![
            (
                "SwitchDetect",
                state(
                    StateMachineMergeMode::Append,
                    vec![transition("Detected", string_trigger("U-Boot"), vec![])],
                ),
            ),
            ("Detected", x_state(StateMachineMergeMode::Replace, "again")),
        ],
    ));
    b.activate_state_file("base").unwrap();
    let sm = b.build().unwrap();
    for name in sm.states() {
        for t in sm.state(&name).unwrap().transitions {
            assert!(sm.has_state(&t.target), "{} -> {}", name, t.target);
        }
    }
}

#[test]
fn state_map_binds_each_name_once() {
    let mut map = StateMap::new();
    assert!(map.get("X").is_none());
    map.insert("X".to_string(), x_state(StateMachineMergeMode::Replace, "one"));
    map.insert("Y".to_string(), x_state(StateMachineMergeMode::Replace, "two"));
    map.insert("X".to_string(), x_state(StateMachineMergeMode::Append, "three"));
    assert_eq!(map.keys(), vec!["X", "Y"]);
    assert!(map.contains_key("Y"));
    assert!(!map.contains_key("Z"));
    assert_eq!(map.get("X").unwrap(), &x_state(StateMachineMergeMode::Append, "three"));
    assert_eq!(map.clone(), map);
}

#[test]
fn build_all_states() {
    let mut builder = StateMachineBuilder::new();
    builder.load_builtin_state_files().unwrap();
    builder.active_all_state_files().unwrap();
    let _sm = builder.build().unwrap();
}

#[test]
fn the_builtin_fragment_is_the_wipe_procedure() {
    let mut builder = StateMachineBuilder::new();
    builder.load_builtin_state_files().unwrap();
    assert_eq!(builder.loaded_state_file_ids(), vec!["wipe"]);
    builder.activate_state_files(&cthulhu::config::default_active_states()).unwrap();
    assert_eq!(builder.merge_order().unwrap(), vec!["wipe"]);
    let sm = builder.build().unwrap();
    assert_eq!(sm.states().len(), 37);
    assert!(sm.has_state("JobFinished"));
    let end = sm.state("EndJob").unwrap();
    assert_eq!(
        end.transitions,
        vec![transition("SwitchDetect", StateMachineTrigger::Immediate, vec![Action::FinishJob])]
    );
    assert_eq!(sm.state("SwitchDetect").unwrap().transitions.len(), 9);
}

#[test]
fn a_chain_is_merged_from_its_root_however_it_was_activated() {
    let mut b = StateMachineBuilder::new();
    b.load_state_file(fragment("A", &[], vec![("X", x_state(StateMachineMergeMode::Replace, "a"))]));
    b.load_state_file(fragment("B", &["A"], vec![("X", x_state(StateMachineMergeMode::Replace, "b"))]));
    b.load_state_file(fragment("C", &["B"], vec![("X", x_state(StateMachineMergeMode::Replace, "c"))]));
    b.activate_state_file("A").unwrap();
    b.activate_state_file("B").unwrap();
    b.activate_state_file("C").unwrap();
    assert_eq!(b.active_state_file_ids(), vec!["A", "B", "C"]);
    assert_eq!(b.merge_order().unwrap(), vec!["A", "B", "C"]);
    let sm = b.build().unwrap();
    assert_eq!(
        sm.get_state("X").unwrap().transitions,
        vec![transition("Init", string_trigger("c"), vec![])]
    );
}

#[test]
fn every_fragment_is_merged_behind_all_it_depends_on() {
    let mut b = StateMachineBuilder::new();
    b.load_state_file(fragment("top", &["left", "right"], vec![]));
    b.load_state_file(fragment("left", &["base"], vec![]));
    b.load_state_file(fragment("right", &["base", "left"], vec![]));
    b.load_state_file(fragment("base", &[], vec![]));
    b.load_state_file(fragment("alone", &[], vec![]));
    b.activate_state_file("alone").unwrap();
    b.activate_state_file("top").unwrap();
    let order = b.merge_order().unwrap();
    assert_eq!(order, vec!["alone", "base", "left", "right", "top"]);
    let place = |name: &str| order.iter().position(|n| n == name).unwrap();
    assert!(place("base") < place("left"));
    assert!(place("left") < place("right"));
    assert!(place("right") < place("top"));
}

#[test]
fn a_dependency_that_is_not_active_fails_the_order() {
    let mut b = StateMachineBuilder::new();
    b.load_state_file(fragment("root", &[], vec![]));
    b.load_state_file(fragment("a", &["missing"], vec![]));
    b.activate_state_file("root").unwrap();
    assert!(b.activate_state_file("a").is_err());
    assert!(b.is_state_file_active("a"));
    assert_eq!(b.merge_order().unwrap_err(), EngineError::UnsortableFragments);
}

#[test]
fn a_graph_lists_its_edges() {
    let sm = StateMachine::default();
    assert_eq!(sm.edges("Init"), vec![("immediate".to_string(), "SwitchDetect".to_string())]);
    assert_eq!(
        sm.edges("SwitchDetect"),
        vec![(
            "string: A non-empty Data Buffering File was found.".to_string(),
            "SwitchDetect".to_string()
        )]
    );
    assert!(sm.edges("Nowhere").is_empty());
    assert_eq!(StateMachineTrigger::Regex { regex: "a+".to_string() }.describe(), "regex: a+");
    assert_eq!(sm.transitions_of("EndJob").len(), 1);
    assert!(sm.transitions_of("Nowhere").is_empty());
}
