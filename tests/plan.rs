use runall::{make_prefix, make_prefixes, name_width, plan, Args, NameCountError};

fn strings(v: &[&str]) -> Vec<String> {
    v.iter().map(|s| s.to_string()).collect()
}

#[test]
fn prefixes_are_padded_to_longest_name() {
    let names = strings(&["a", "long", "mid"]);
    assert_eq!(name_width(&names), 4);
    assert_eq!(make_prefixes(&names), strings(&["[a]   ", "[long]", "[mid] "]));
}

#[test]
fn prefix_width_counts_characters() {
    assert_eq!(make_prefix("é", 3), "[é]  ");
    assert_eq!(name_width(&strings(&["héllo", "ab"])), 5);
    assert_eq!(name_width(&Vec::new()), 0);
}

#[test]
fn plan_without_names_uses_defaults() {
    let args = Args {
        names: None,
        commands: strings(&["echo hi", "echo bye"]),
    };
    let launches = plan(args).unwrap();
    assert_eq!(launches.len(), 2);
    assert_eq!(launches[0].name, "cmd-1");
    assert_eq!(launches[0].command, "echo hi");
    assert_eq!(launches[0].prefix, "[cmd-1]");
    assert_eq!(launches[1].name, "cmd-2");
    assert_eq!(launches[1].command, "echo bye");
    assert_eq!(launches[1].prefix, "[cmd-2]");
}

#[test]
fn plan_with_single_comma_name() {
    let args = Args {
        names: Some(strings(&["a,bb,ccc"])),
        commands: strings(&["x", "y", "z"]),
    };
    let launches = plan(args).unwrap();
    let prefixes: Vec<&str> = launches.iter().map(|l| l.prefix.as_str()).collect();
    assert_eq!(prefixes, vec!["[a]  ", "[bb] ", "[ccc]"]);
}

#[test]
fn plan_refuses_count_mismatch() {
    let args = Args {
        names: Some(strings(&["a", "b"])),
        commands: strings(&["x", "y", "z"]),
    };
    assert_eq!(plan(args).err(), Some(NameCountError { expected: 3, got: 2 }));
    let args = Args {
        names: Some(strings(&["a,b"])),
        commands: strings(&["x", "y", "z"]),
    };
    assert_eq!(plan(args).err(), Some(NameCountError { expected: 3, got: 2 }));
}

#[test]
fn plan_with_no_commands() {
    let args = Args {
        names: None,
        commands: Vec::new(),
    };
    assert_eq!(plan(args).unwrap().len(), 0);
}
