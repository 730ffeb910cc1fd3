use sn::introspect::{describe_arg, run, valid_subcommands, ArgInfo, ArgKind, CommandInfo};
use sn::json::Json;

fn arg(id: &str, kind: ArgKind) -> ArgInfo {
    ArgInfo {
        id: id.into(),
        long: Some(id.into()),
        short: None,
        aliases: vec![],
        help: None,
        help_heading: None,
        required: false,
        hidden: false,
        positional: false,
        kind,
        value_names: vec![],
        default_values: vec![],
        possible_values: vec!["true".into(), "false".into()],
        conflicts: vec![],
    }
}

fn command(name: &str, args: Vec<ArgInfo>, subcommands: Vec<CommandInfo>) -> CommandInfo {
    CommandInfo {
        name: name.into(),
        about: None,
        hidden: false,
        args,
        subcommands,
    }
}

fn names(v: &Json, key: &str) -> Vec<String> {
    v.get(key)
        .unwrap()
        .as_array()
        .unwrap()
        .iter()
        .map(|j| j.get_str("name").unwrap().clone())
        .collect()
}

#[test]
fn the_help_and_the_builtin_flags_are_left_out() {
    let mut hidden = arg("secret", ArgKind::One);
    hidden.hidden = true;
    let root = command(
        "sn",
        vec![
            arg("profile", ArgKind::One),
            arg("help", ArgKind::Builtin),
            hidden,
        ],
        vec![
            command("table", vec![], vec![command("list", vec![], vec![])]),
            command("help", vec![], vec![command("table", vec![], vec![])]),
        ],
    );
    let tree = run(&root, "1.2.3");
    assert_eq!(tree.get_str("name").unwrap(), "sn");
    assert_eq!(tree.get_str("version").unwrap(), "1.2.3");
    assert_eq!(names(&tree, "args"), vec!["profile"]);
    assert_eq!(names(&tree, "subcommands"), vec!["table"]);
    let table = &tree.get("subcommands").unwrap().as_array().unwrap()[0];
    assert_eq!(names(table, "subcommands"), vec!["list"]);
    assert!(table.get("version").is_none(), "stamped at the root only");
}

#[test]
fn a_flag_offers_no_values_and_a_version_option_is_kept() {
    let flag = describe_arg(&arg("pretty", ArgKind::Flag));
    assert_eq!(flag.get("possible_values").unwrap().render(), "[]");
    assert_eq!(flag.get("takes_value").unwrap().render(), "false");
    assert_eq!(flag.get("repeatable").unwrap().render(), "false");

    let version = describe_arg(&arg("version", ArgKind::One));
    assert_eq!(
        version.get("possible_values").unwrap().render(),
        r#"["true","false"]"#
    );
    assert_eq!(version.get("takes_value").unwrap().render(), "true");
}

#[test]
fn conflicts_are_listed_in_order() {
    let mut a = arg("data", ArgKind::Many);
    a.conflicts = vec!["field".into(), "all".into(), "field".into()];
    a.value_names = vec!["JSON".into(), "MORE".into()];
    let d = describe_arg(&a);
    assert_eq!(
        d.get("conflicts_with").unwrap().render(),
        r#"["all","field","field"]"#
    );
    assert_eq!(d.get_str("value_name").unwrap(), "JSON");
    assert_eq!(d.get("repeatable").unwrap().render(), "true");
    assert!(matches!(d.get("help"), Some(Json::Null)));
}

#[test]
fn the_commands_of_a_group_are_found_by_its_name() {
    let root = command(
        "sn",
        vec![],
        vec![
            command(
                "change",
                vec![],
                vec![command(
                    "task",
                    vec![],
                    vec![
                        command("list", vec![], vec![]),
                        command("help", vec![], vec![]),
                    ],
                )],
            ),
            command("ping", vec![], vec![]),
        ],
    );
    assert_eq!(valid_subcommands(&root, "task").unwrap(), vec!["list"]);
    assert_eq!(valid_subcommands(&root, "change").unwrap(), vec!["task"]);
    assert_eq!(valid_subcommands(&root, "ping"), None);
    assert_eq!(valid_subcommands(&root, "nowhere"), None);
}
