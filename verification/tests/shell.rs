use kitu::error::KituError;
use kitu::shell::{CommandHandler, EchoCommand, Shell};

struct Refusing;

impl CommandHandler for Refusing {
    fn execute(&self, _args: &[String]) -> Result<String, KituError> {
        Err(KituError::NotImplemented("refuse".into()))
    }
}

#[test]
fn running_registered_command_returns_output() {
    let mut shell = Shell::default();
    shell.register_command("echo", EchoCommand);
    let out = shell
        .run("echo", &["hello".into(), "world".into()])
        .unwrap();
    assert_eq!(out, "hello world");
}

#[test]
fn running_unknown_command_errors() {
    let shell = Shell::default();
    let err = shell.run("missing", &[]).unwrap_err();
    assert!(matches!(err, KituError::InvalidInput("unknown command")));
}

#[test]
fn echo_joins_with_single_spaces() {
    let echo = EchoCommand;
    assert_eq!(echo.execute(&[]), Ok(String::new()));
    assert_eq!(echo.execute(&["one".into()]), Ok("one".to_string()));
    assert_eq!(
        echo.execute(&["a".into(), "".into(), "b c".into()]),
        Ok("a  b c".to_string())
    );
}

#[test]
fn a_later_registration_replaces_an_earlier_one() {
    let mut shell = Shell::default();
    shell.register_command("x", EchoCommand);
    assert_eq!(shell.run("x", &["hi".into()]), Ok("hi".to_string()));
    shell.register_command("x", Refusing);
    assert_eq!(
        shell.run("x", &["hi".into()]),
        Err(KituError::NotImplemented("refuse".to_string()))
    );
    assert_eq!(
        shell.run("X", &["hi".into()]),
        Err(KituError::InvalidInput("unknown command"))
    );
}
