use fsh::builtin::{execute, is_builtin, printenv, Builtin};
use fsh::sh_vars::ShVars;

#[test]
fn the_table_of_builtins_is_fixed() {
    assert!(is_builtin("cd"));
    assert!(is_builtin("exit"));
    assert!(is_builtin("abort"));
    assert!(is_builtin("printenv"));
    assert!(!is_builtin("echo"));
    assert!(!is_builtin(""));
    assert!(!is_builtin("cd "));
    let none: Vec<String> = Vec::new();
    assert_eq!(execute("cd", &none), Some(Builtin::ChangeDir("/".to_string())));
    assert_eq!(
        execute("cd", &vec!["/usr".to_string(), "x".to_string()]),
        Some(Builtin::ChangeDir("/usr".to_string()))
    );
    assert_eq!(execute("exit", &none), Some(Builtin::Exit(0)));
    assert_eq!(execute("exit", &vec!["-2".to_string()]), Some(Builtin::Exit(-2)));
    assert_eq!(execute("exit", &vec!["two".to_string()]), Some(Builtin::Exit(0)));
    assert_eq!(execute("abort", &none), Some(Builtin::Abort));
    assert_eq!(execute("printenv", &none), Some(Builtin::PrintEnv("".to_string())));
    assert_eq!(
        execute("printenv", &vec!["PATH".to_string()]),
        Some(Builtin::PrintEnv("PATH".to_string()))
    );
    assert_eq!(execute("ls", &none), None);
    let mut vars = ShVars::new();
    vars.set("A", "1");
    vars.set("B", "2");
    assert_eq!(printenv("", &vars).len(), 2);
    assert_eq!(printenv("A", &vars).keys(), vec!["A"]);
    assert_eq!(printenv("C", &vars).len(), 0);
}
