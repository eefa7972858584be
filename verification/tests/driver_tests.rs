use expansion::driver::{expand_and_execute, Invocation, PendingExpansion, Step};
use expansion::snapshot::EditorSnapshot;

fn snap() -> EditorSnapshot {
    EditorSnapshot {
        path: Some(String::from("/a/b/c.rs")),
        cwd: String::from("/a"),
        workspace_root: Some(String::from("/a/b")),
        selection: String::from("sel"),
        cursor_line: 0,
        language: None,
    }
}

fn args(parts: &[&str]) -> Vec<String> {
    parts.iter().map(|p| String::from(*p)).collect()
}

#[test]
fn plain_command_runs_at_once() {
    let step = expand_and_execute(&snap(), &String::from("echo"), &args(&["say", "%{lang}"]));
    match step {
        Step::Run(inv) => {
            assert_eq!(inv.name, "echo");
            assert_eq!(inv.args, args(&["say", "text"]));
        }
        Step::Prompt(_, _) => panic!("no prompt was asked for"),
    }
}

#[test]
fn final_string_splits_on_every_single_space() {
    let step = expand_and_execute(&snap(), &String::from("echo"), &args(&["a  b"]));
    match step {
        Step::Run(inv) => assert_eq!(inv.args, args(&["a", "", "b"])),
        Step::Prompt(_, _) => panic!("no prompt was asked for"),
    }
}

#[test]
fn empty_input_yields_one_empty_argument() {
    let step = expand_and_execute(&snap(), &String::from("echo"), &args(&[""]));
    match step {
        Step::Run(inv) => assert_eq!(inv.args, args(&[""])),
        Step::Prompt(_, _) => panic!("no prompt was asked for"),
    }
}

#[test]
fn raw_arguments_join_with_single_spaces() {
    let step = expand_and_execute(&snap(), &String::from("echo"), &args(&["%{cwd}", "x"]));
    match step {
        Step::Run(inv) => assert_eq!(inv.args, args(&["/a", "x"])),
        Step::Prompt(_, _) => panic!("no prompt was asked for"),
    }
}

#[test]
fn two_prompts_answered_in_source_order() {
    let step = expand_and_execute(
        &snap(),
        &String::from("echo"),
        &args(&["%{prompt enter name} - %{prompt enter age}"]),
    );
    let (label1, st1) = match step {
        Step::Prompt(label, st) => (label, st),
        Step::Run(_) => panic!("two prompts are pending"),
    };
    assert_eq!(label1, "enter name");
    let (label2, st2) = match st1.submit("Alice") {
        Step::Prompt(label, st) => (label, st),
        Step::Run(_) => panic!("one prompt is still pending"),
    };
    assert_eq!(label2, "enter age");
    match st2.submit("30") {
        Step::Run(inv) => {
            assert_eq!(inv.name, "echo");
            assert_eq!(inv.args, args(&["Alice", "-", "30"]));
        }
        Step::Prompt(_, _) => panic!("every prompt is answered"),
    }
}

#[test]
fn cancelling_the_first_of_two_prompts_runs_nothing() {
    let step = expand_and_execute(
        &snap(),
        &String::from("echo"),
        &args(&["%{prompt a} %{prompt b}"]),
    );
    // Cancelling is dropping the pending state: no invocation was produced
    // before the first answer, and none ever will be.
    match step {
        Step::Prompt(label, st) => {
            assert_eq!(label, "a");
            let pending: PendingExpansion = st;
            drop(pending);
        }
        Step::Run(_) => panic!("no command may run while prompts are pending"),
    }
}

#[test]
fn prompt_answer_is_not_re_expanded() {
    let step = expand_and_execute(&snap(), &String::from("echo"), &args(&["%{prompt q}"]));
    let st = match step {
        Step::Prompt(_, st) => st,
        Step::Run(_) => panic!("a prompt is pending"),
    };
    match st.submit("%{cwd}") {
        Step::Run(inv) => assert_eq!(inv.args, args(&["%{cwd}"])),
        Step::Prompt(_, _) => panic!("every prompt is answered"),
    }
}

#[test]
fn prompt_label_words_join_with_single_spaces() {
    let step = expand_and_execute(
        &snap(),
        &String::from("echo"),
        &args(&["%{prompt   spaced   label}"]),
    );
    match step {
        Step::Prompt(label, _) => assert_eq!(label, "spaced label"),
        Step::Run(_) => panic!("a prompt is pending"),
    }
}

#[test]
fn pending_state_carries_the_partial_string() {
    let step = expand_and_execute(
        &snap(),
        &String::from("echo"),
        &args(&["%{basename} %{prompt q}"]),
    );
    match step {
        Step::Prompt(_, st) => {
            assert_eq!(st.partial, "c.rs %{prompt}");
            assert_eq!(st.name, "echo");
            assert!(st.labels.is_empty());
        }
        Step::Run(_) => panic!("a prompt is pending"),
    }
}

#[test]
fn command_name_passes_through_untouched() {
    // the host's registry decides what exists; the library hands the name on
    let step = expand_and_execute(&snap(), &String::from("nosuch"), &args(&["x"]));
    match step {
        Step::Run(Invocation { name, args: run_args }) => {
            assert_eq!(name, "nosuch");
            assert_eq!(run_args, args(&["x"]));
        }
        Step::Prompt(_, _) => panic!("no prompt was asked for"),
    }
}

#[test]
fn labelless_prompt_asks_with_an_empty_label() {
    let step = expand_and_execute(&snap(), &String::from("echo"), &args(&["%{prompt}"]));
    match step {
        Step::Prompt(label, st) => {
            assert_eq!(label, "");
            match st.submit("ans") {
                Step::Run(inv) => assert_eq!(inv.args, args(&["ans"])),
                Step::Prompt(_, _) => panic!("every prompt is answered"),
            }
        }
        Step::Run(_) => panic!("a prompt is pending"),
    }
}
